//! Outbound sessions: one heartbeat session over an established connection,
//! and the loop that keeps connecting to a peer.

use crate::config::{ClientConfig, PeerConfig};
use crate::disconnect::{DisconnectReason, IoErrorKind};
use crate::families::{bumped, label_set};
use crate::metrics::{
    disconnect_labels, peer_labels, with_disconnect_labels, DisconnectLabel, Metrics, PeerLabel,
    Readings,
};
use crate::text::{address, address_text};
use vstd::prelude::*;

verus! {

/// The reason that a failed send or receive gives for the end of an outbound
/// session.
pub open spec fn client_reason(kind: IoErrorKind) -> DisconnectReason {
    match kind {
        IoErrorKind::ConnectionReset => DisconnectReason::ConnectionReset,
        IoErrorKind::UnexpectedEof => DisconnectReason::RemoteClose,
        IoErrorKind::BrokenPipe => DisconnectReason::RemoteClose,
        IoErrorKind::Other => DisconnectReason::LocalError,
    }
}

fn disconnect_reason(kind: IoErrorKind) -> (reason: DisconnectReason)
    ensures
        reason == client_reason(kind),
{
    match kind {
        IoErrorKind::ConnectionReset => DisconnectReason::ConnectionReset,
        IoErrorKind::UnexpectedEof | IoErrorKind::BrokenPipe => DisconnectReason::RemoteClose,
        IoErrorKind::Other => DisconnectReason::LocalError,
    }
}

/// The disconnect reason for a failed send or receive, as its label says it: a
/// reset is a reset, an end of the stream or a broken pipe means that the
/// remote side closed, anything else is an error on this host.
pub fn classify_io_error(kind: IoErrorKind) -> (reason: &'static str)
    ensures
        reason@ == client_reason(kind).text(),
{
    disconnect_reason(kind).as_str()
}

/// How an outbound session ended.
#[derive(Clone, Copy, Debug, PartialEq, Eq, Structural)]
pub enum SessionEnd {
    /// It was asked to stop.
    Cancelled,
    /// It was lost.
    Lost(DisconnectReason),
}

/// What an outbound session is doing.
#[derive(Clone, Copy, Debug, PartialEq, Eq, Structural)]
pub enum ClientStage {
    /// Announcing the node's name.
    Greeting,
    /// Waiting for the time of the next heartbeat.
    Waiting,
    /// Sending a heartbeat.
    Sending,
    /// Waiting for the echo.
    AwaitingEcho,
    /// Over.
    Ended,
}

/// What came of what an outbound session asked for.
#[derive(Clone, Copy, Debug, PartialEq, Eq, Structural)]
pub enum ClientEvent {
    GreetingSent,
    GreetingFailed,
    /// The time of the next heartbeat has come.
    Woken,
    Sent,
    SendFailed(IoErrorKind),
    EchoReceived,
    EchoTimedOut,
    EchoFailed(IoErrorKind),
    /// The session is to stop.
    Cancelled,
}

/// What an outbound session asks for next.
#[derive(Clone, Copy, Debug, PartialEq, Eq, Structural)]
pub enum ClientAction {
    /// Wait until so many seconds after the start of the session.
    WaitUntil(u64),
    /// Send the heartbeat with this sequence number.
    Send(u64),
    /// Wait for the echo, for so many seconds at most.
    AwaitEcho(u64),
    /// The session is over.
    End(SessionEnd),
}

/// An outbound heartbeat session.
pub struct ClientSession {
    label: PeerLabel,
    heartbeat_interval: u64,
    max_misses: u32,
    seq: u64,
    consecutive_missed: i64,
    next_send: u64,
    stage: ClientStage,
}

/// The state of an outbound session.
pub ghost struct ClientState {
    pub node: Seq<char>,
    pub peer: Seq<char>,
    /// Seconds between two heartbeats, and the wait for an echo.
    pub interval: nat,
    /// Consecutive misses that end the session.
    pub max_misses: nat,
    /// The sequence number of the next heartbeat: the heartbeats sent so far.
    pub seq: nat,
    /// Misses since the last echo.
    pub missed: nat,
    /// When the next heartbeat is due, in seconds after the start.
    pub next_send: nat,
    pub stage: ClientStage,
}

/// Whether a session is established.
pub open spec fn live(stage: ClientStage) -> bool {
    stage is Waiting || stage is Sending || stage is AwaitingEcho
}

impl ClientState {
    /// The state of a session over a new connection.
    pub open spec fn fresh(
        node: Seq<char>,
        peer: Seq<char>,
        interval: nat,
        max_misses: nat,
    ) -> ClientState {
        ClientState {
            node,
            peer,
            interval,
            max_misses,
            seq: 0,
            missed: 0,
            next_send: 0,
            stage: ClientStage::Greeting,
        }
    }

    /// Whether the event answers what the session asked for.
    pub open spec fn expects(self, event: ClientEvent) -> bool {
        match event {
            ClientEvent::GreetingSent | ClientEvent::GreetingFailed => self.stage is Greeting,
            ClientEvent::Woken => self.stage is Waiting,
            ClientEvent::Sent | ClientEvent::SendFailed(_) => self.stage is Sending,
            ClientEvent::EchoReceived | ClientEvent::EchoTimedOut | ClientEvent::EchoFailed(
                _,
            ) => self.stage is AwaitingEcho,
            ClientEvent::Cancelled => live(self.stage),
        }
    }

    /// How the session ends with the event, if it does.
    pub open spec fn end(self, event: ClientEvent) -> Option<SessionEnd> {
        match event {
            ClientEvent::GreetingFailed => Some(SessionEnd::Lost(DisconnectReason::LocalError)),
            ClientEvent::SendFailed(kind) | ClientEvent::EchoFailed(kind) => Some(
                SessionEnd::Lost(client_reason(kind)),
            ),
            ClientEvent::EchoTimedOut => if self.missed + 1 >= self.max_misses {
                Some(SessionEnd::Lost(DisconnectReason::Timeout))
            } else {
                None
            },
            ClientEvent::Cancelled => Some(SessionEnd::Cancelled),
            _ => None,
        }
    }

    /// The state after the event.
    pub open spec fn after(self, event: ClientEvent) -> ClientState {
        ClientState {
            next_send: if event is Woken {
                self.next_send + self.interval
            } else {
                self.next_send
            },
            seq: if event is Sent {
                self.seq + 1
            } else {
                self.seq
            },
            missed: if event is EchoTimedOut {
                self.missed + 1
            } else if event is EchoReceived {
                0
            } else {
                self.missed
            },
            stage: if self.end(event) is Some {
                ClientStage::Ended
            } else if event is Woken {
                ClientStage::Sending
            } else if event is Sent {
                ClientStage::AwaitingEcho
            } else {
                ClientStage::Waiting
            },
            ..self
        }
    }

    /// What the session asks for after the event.
    pub open spec fn action(self, event: ClientEvent) -> ClientAction {
        match self.end(event) {
            Some(end) => ClientAction::End(end),
            None => if event is Woken {
                ClientAction::Send(self.seq as u64)
            } else if event is Sent {
                ClientAction::AwaitEcho(self.interval as u64)
            } else {
                ClientAction::WaitUntil(self.next_send as u64)
            },
        }
    }

    /// What the metrics show after the event. A session that ends is no longer
    /// active and is counted under its reason, unless it was asked to stop or
    /// was never established.
    pub open spec fn readings(self, event: ClientEvent, before: Readings) -> Readings {
        let labels = peer_labels(self.node, self.peer);
        let seen = match event {
            ClientEvent::GreetingSent => Readings {
                cli_session_active: before.cli_session_active.insert(labels, 1),
                cli_sessions_total: bumped(before.cli_sessions_total, labels),
                cli_consecutive_missed: before.cli_consecutive_missed.insert(labels, 0),
                ..before
            },
            ClientEvent::Sent => Readings {
                cli_heartbeats_sent: bumped(before.cli_heartbeats_sent, labels),
                ..before
            },
            ClientEvent::EchoReceived => Readings {
                cli_heartbeats_rx: bumped(before.cli_heartbeats_rx, labels),
                cli_consecutive_missed: before.cli_consecutive_missed.insert(labels, 0),
                ..before
            },
            ClientEvent::EchoTimedOut => Readings {
                cli_heartbeats_missed: bumped(before.cli_heartbeats_missed, labels),
                cli_consecutive_missed: before.cli_consecutive_missed.insert(
                    labels,
                    (self.missed + 1) as i64,
                ),
                ..before
            },
            _ => before,
        };
        if !live(self.stage) {
            seen
        } else {
            match self.end(event) {
                Some(SessionEnd::Lost(reason)) => Readings {
                    cli_session_active: seen.cli_session_active.insert(labels, 0),
                    cli_disconnects: bumped(
                        seen.cli_disconnects,
                        disconnect_labels(self.node, self.peer, reason),
                    ),
                    ..seen
                },
                Some(SessionEnd::Cancelled) => Readings {
                    cli_session_active: seen.cli_session_active.insert(labels, 0),
                    ..seen
                },
                None => seen,
            }
        }
    }

    /// Whether the event can be taken: it answers what the session asked for,
    /// and the count of heartbeats and the time of the next one stay within
    /// what they can hold.
    pub open spec fn accepts(self, event: ClientEvent) -> bool {
        &&& self.expects(event)
        &&& self.after(event).seq <= u64::MAX
        &&& self.after(event).next_send <= u64::MAX
    }

    /// What holds of a session at all times: the next heartbeat is due as many
    /// intervals after the start as heartbeats were sent before it, and a
    /// session that goes on has missed fewer echoes in a row than end it.
    pub open spec fn wf(self) -> bool {
        &&& self.stage is Greeting ==> self.seq == 0 && self.missed == 0
        &&& self.stage is Greeting || self.stage is Waiting || self.stage is AwaitingEcho
            ==> self.next_send == self.interval * self.seq
        &&& self.stage is Sending ==> self.next_send == self.interval * (self.seq + 1)
        &&& !(self.stage is Ended) ==> self.missed == 0 || self.missed < self.max_misses
        &&& self.missed <= 1 || self.missed <= self.max_misses
    }
}

impl View for ClientSession {
    type V = ClientState;

    closed spec fn view(&self) -> ClientState {
        ClientState {
            node: self.label.node@,
            peer: self.label.peer@,
            interval: self.heartbeat_interval as nat,
            max_misses: self.max_misses as nat,
            seq: self.seq as nat,
            missed: self.consecutive_missed as nat,
            next_send: self.next_send as nat,
            stage: self.stage,
        }
    }
}

impl ClientSession {
    /// What holds of a session at all times.
    pub closed spec fn wf(self) -> bool {
        &&& 0 <= self.consecutive_missed <= u32::MAX
        &&& self@.wf()
    }

    /// A session over a new connection. What it asks for first is that the
    /// node's name is announced.
    pub fn new(node: &str, peer: &str, config: &ClientConfig) -> (session: ClientSession)
        ensures
            session.wf(),
            session@ == ClientState::fresh(
                node@,
                peer@,
                config.heartbeat_interval as nat,
                config.max_misses as nat,
            ),
    {
        assert(config.heartbeat_interval * 0 == 0);
        ClientSession {
            label: PeerLabel::new(node, peer),
            heartbeat_interval: config.heartbeat_interval,
            max_misses: config.max_misses,
            seq: 0,
            consecutive_missed: 0,
            next_send: 0,
            stage: ClientStage::Greeting,
        }
    }

    /// Whether the event can be taken.
    pub fn accepts(&self, event: ClientEvent) -> (yes: bool)
        requires
            self.wf(),
        ensures
            yes == self@.accepts(event),
    {
        let live = match self.stage {
            ClientStage::Waiting | ClientStage::Sending | ClientStage::AwaitingEcho => true,
            _ => false,
        };
        match event {
            ClientEvent::GreetingSent
            | ClientEvent::GreetingFailed => self.stage == ClientStage::Greeting,
            ClientEvent::Woken => self.stage == ClientStage::Waiting && self.next_send <= u64::MAX
                - self.heartbeat_interval,
            ClientEvent::Sent => self.stage == ClientStage::Sending && self.seq < u64::MAX,
            ClientEvent::SendFailed(_) => self.stage == ClientStage::Sending,
            ClientEvent::EchoReceived
            | ClientEvent::EchoTimedOut
            | ClientEvent::EchoFailed(_) => self.stage == ClientStage::AwaitingEcho,
            ClientEvent::Cancelled => live,
        }
    }

    /// Takes an event into account and says what to do next.
    pub fn step(&mut self, event: ClientEvent, metrics: &mut Metrics) -> (action: ClientAction)
        requires
            old(self).wf(),
            old(self)@.accepts(event),
        ensures
            final(self).wf(),
            final(self)@ == old(self)@.after(event),
            action == old(self)@.action(event),
            final(metrics)@ == old(self)@.readings(event, old(metrics)@),
    {
        let pairs = self.label.pairs();
        match event {
            ClientEvent::GreetingSent => {
                metrics.cli_session_active.set(&pairs, 1);
                metrics.cli_sessions_total.inc(&pairs);
                metrics.cli_consecutive_missed.set(&pairs, 0);
                self.stage = ClientStage::Waiting;
                ClientAction::WaitUntil(self.next_send)
            },
            ClientEvent::GreetingFailed => {
                self.stage = ClientStage::Ended;
                ClientAction::End(SessionEnd::Lost(DisconnectReason::LocalError))
            },
            ClientEvent::Woken => {
                self.next_send = self.next_send + self.heartbeat_interval;
                self.stage = ClientStage::Sending;
                assert(self.heartbeat_interval * self.seq + self.heartbeat_interval
                    == self.heartbeat_interval * (self.seq + 1)) by (nonlinear_arith);
                ClientAction::Send(self.seq)
            },
            ClientEvent::Sent => {
                metrics.cli_heartbeats_sent.inc(&pairs);
                self.seq = self.seq + 1;
                self.stage = ClientStage::AwaitingEcho;
                ClientAction::AwaitEcho(self.heartbeat_interval)
            },
            ClientEvent::SendFailed(kind) | ClientEvent::EchoFailed(kind) => {
                self.lose(disconnect_reason(kind), &pairs, metrics)
            },
            ClientEvent::EchoReceived => {
                self.consecutive_missed = 0;
                metrics.cli_heartbeats_rx.inc(&pairs);
                metrics.cli_consecutive_missed.set(&pairs, 0);
                self.stage = ClientStage::Waiting;
                ClientAction::WaitUntil(self.next_send)
            },
            ClientEvent::EchoTimedOut => {
                self.consecutive_missed = self.consecutive_missed + 1;
                metrics.cli_heartbeats_missed.inc(&pairs);
                metrics.cli_consecutive_missed.set(&pairs, self.consecutive_missed);
                if self.consecutive_missed >= self.max_misses as i64 {
                    self.lose(DisconnectReason::Timeout, &pairs, metrics)
                } else {
                    self.stage = ClientStage::Waiting;
                    ClientAction::WaitUntil(self.next_send)
                }
            },
            ClientEvent::Cancelled => {
                metrics.cli_session_active.set(&pairs, 0);
                self.stage = ClientStage::Ended;
                ClientAction::End(SessionEnd::Cancelled)
            },
        }
    }

    /// Ends an established session that was lost.
    fn lose(
        &mut self,
        reason: DisconnectReason,
        pairs: &Vec<(String, String)>,
        metrics: &mut Metrics,
    ) -> (action: ClientAction)
        ensures
            *final(self) == (ClientSession { stage: ClientStage::Ended, ..*old(self) }),
            action == ClientAction::End(SessionEnd::Lost(reason)),
            final(metrics)@ == (Readings {
                cli_session_active: old(metrics)@.cli_session_active.insert(label_set(pairs@), 0),
                cli_disconnects: bumped(
                    old(metrics)@.cli_disconnects,
                    disconnect_labels(old(self)@.node, old(self)@.peer, reason),
                ),
                ..old(metrics)@
            }),
    {
        metrics.cli_session_active.set(pairs, 0);
        let label = DisconnectLabel::new(
            self.label.node.as_str(),
            self.label.peer.as_str(),
            reason,
        );
        metrics.cli_disconnects.inc(&label.pairs());
        self.stage = ClientStage::Ended;
        ClientAction::End(SessionEnd::Lost(reason))
    }
}

/// What the loop that keeps connecting to a peer is doing.
#[derive(Clone, Copy, Debug, PartialEq, Eq, Structural)]
pub enum PeerStage {
    Connecting,
    InSession,
    /// Waiting before it connects again.
    Resting,
    Stopped,
}

/// What came of what the loop asked for.
#[derive(Clone, Copy, Debug, PartialEq, Eq, Structural)]
pub enum PeerEvent {
    Connected,
    ConnectFailed,
    SessionEnded(SessionEnd),
    /// The wait is over.
    Rested,
    /// The loop is to stop.
    Cancelled,
}

/// What the loop asks for next.
#[derive(Clone, Debug)]
pub enum PeerAction {
    /// Connect to this address.
    Connect(String),
    /// Run a session over the connection.
    RunSession,
    /// Wait for so many seconds.
    Rest(u64),
    /// The loop is over.
    Stop,
}

/// What the loop asks for.
pub ghost enum PeerRequest {
    Connect(Seq<char>),
    RunSession,
    Rest(u64),
    Stop,
}

impl View for PeerAction {
    type V = PeerRequest;

    open spec fn view(&self) -> PeerRequest {
        match *self {
            PeerAction::Connect(to) => PeerRequest::Connect(to@),
            PeerAction::RunSession => PeerRequest::RunSession,
            PeerAction::Rest(seconds) => PeerRequest::Rest(seconds),
            PeerAction::Stop => PeerRequest::Stop,
        }
    }
}

/// The loop that keeps connecting to a peer.
pub struct PeerLoop {
    node: String,
    peer: String,
    host: String,
    port: u16,
    reconnect_delay: u64,
    stage: PeerStage,
}

/// The state of the loop.
pub ghost struct PeerState {
    pub node: Seq<char>,
    pub peer: Seq<char>,
    pub host: Seq<char>,
    pub port: u16,
    /// Seconds between the end of one attempt and the next.
    pub reconnect_delay: u64,
    pub stage: PeerStage,
}

impl PeerState {
    /// Whether the event answers what the loop asked for. A session looks
    /// after its own cancellation and ends with it.
    pub open spec fn expects(self, event: PeerEvent) -> bool {
        match event {
            PeerEvent::Connected | PeerEvent::ConnectFailed => self.stage is Connecting,
            PeerEvent::SessionEnded(_) => self.stage is InSession,
            PeerEvent::Rested => self.stage is Resting,
            PeerEvent::Cancelled => self.stage is Connecting || self.stage is Resting,
        }
    }

    /// What the loop is doing after the event.
    pub open spec fn next_stage(self, event: PeerEvent) -> PeerStage {
        match event {
            PeerEvent::Connected => PeerStage::InSession,
            PeerEvent::ConnectFailed => PeerStage::Resting,
            PeerEvent::SessionEnded(SessionEnd::Lost(_)) => PeerStage::Resting,
            PeerEvent::SessionEnded(SessionEnd::Cancelled) => PeerStage::Stopped,
            PeerEvent::Rested => PeerStage::Connecting,
            PeerEvent::Cancelled => PeerStage::Stopped,
        }
    }

    /// The state after the event.
    pub open spec fn after(self, event: PeerEvent) -> PeerState {
        PeerState { stage: self.next_stage(event), ..self }
    }

    /// What the loop asks for in this state.
    pub open spec fn request(self) -> PeerRequest {
        match self.stage {
            PeerStage::Connecting => PeerRequest::Connect(address(self.host, self.port)),
            PeerStage::InSession => PeerRequest::RunSession,
            PeerStage::Resting => PeerRequest::Rest(self.reconnect_delay),
            PeerStage::Stopped => PeerRequest::Stop,
        }
    }

    /// What the metrics show after the event: a failed attempt to connect is
    /// counted, everything else is the session's to count.
    pub open spec fn readings(self, event: PeerEvent, before: Readings) -> Readings {
        if event is ConnectFailed {
            Readings {
                cli_disconnects: bumped(
                    before.cli_disconnects,
                    disconnect_labels(self.node, self.peer, DisconnectReason::ConnectFailed),
                ),
                ..before
            }
        } else {
            before
        }
    }
}

impl View for PeerLoop {
    type V = PeerState;

    closed spec fn view(&self) -> PeerState {
        PeerState {
            node: self.node@,
            peer: self.peer@,
            host: self.host@,
            port: self.port,
            reconnect_delay: self.reconnect_delay,
            stage: self.stage,
        }
    }
}

impl PeerLoop {
    /// Starts to connect to a peer. Its disconnect counters are shown from now
    /// on.
    pub fn new(
        peer: &PeerConfig,
        config: &ClientConfig,
        node: &str,
        metrics: &mut Metrics,
    ) -> (peer_loop: PeerLoop)
        ensures
            peer_loop@ == (PeerState {
                node: node@,
                peer: peer.name@,
                host: peer.host@,
                port: peer.port,
                reconnect_delay: config.reconnect_delay,
                stage: PeerStage::Connecting,
            }),
            final(metrics)@ == with_disconnect_labels(old(metrics)@, node@, peer.name@),
    {
        metrics.init_disconnect_labels(node, peer.name.as_str());
        PeerLoop {
            node: node.to_string(),
            peer: peer.name.clone(),
            host: peer.host.clone(),
            port: peer.port,
            reconnect_delay: config.reconnect_delay,
            stage: PeerStage::Connecting,
        }
    }

    /// Whether the event answers what the loop asked for.
    pub fn expects(&self, event: PeerEvent) -> (yes: bool)
        ensures
            yes == self@.expects(event),
    {
        match event {
            PeerEvent::Connected | PeerEvent::ConnectFailed => self.stage == PeerStage::Connecting,
            PeerEvent::SessionEnded(_) => self.stage == PeerStage::InSession,
            PeerEvent::Rested => self.stage == PeerStage::Resting,
            PeerEvent::Cancelled => self.stage == PeerStage::Connecting || self.stage
                == PeerStage::Resting,
        }
    }

    /// What to do now.
    pub fn action(&self) -> (action: PeerAction)
        ensures
            action@ == self@.request(),
    {
        match self.stage {
            PeerStage::Connecting => PeerAction::Connect(
                address_text(self.host.as_str(), self.port),
            ),
            PeerStage::InSession => PeerAction::RunSession,
            PeerStage::Resting => PeerAction::Rest(self.reconnect_delay),
            PeerStage::Stopped => PeerAction::Stop,
        }
    }

    /// Takes an event into account and says what to do next.
    pub fn step(&mut self, event: PeerEvent, metrics: &mut Metrics) -> (action: PeerAction)
        requires
            old(self)@.expects(event),
        ensures
            final(self)@ == old(self)@.after(event),
            action@ == final(self)@.request(),
            final(metrics)@ == old(self)@.readings(event, old(metrics)@),
    {
        match event {
            PeerEvent::Connected => {
                self.stage = PeerStage::InSession;
            },
            PeerEvent::ConnectFailed => {
                let label = DisconnectLabel::new(
                    self.node.as_str(),
                    self.peer.as_str(),
                    DisconnectReason::ConnectFailed,
                );
                metrics.cli_disconnects.inc(&label.pairs());
                self.stage = PeerStage::Resting;
            },
            PeerEvent::SessionEnded(SessionEnd::Lost(_)) => {
                self.stage = PeerStage::Resting;
            },
            PeerEvent::SessionEnded(SessionEnd::Cancelled) => {
                self.stage = PeerStage::Stopped;
            },
            PeerEvent::Rested => {
                self.stage = PeerStage::Connecting;
            },
            PeerEvent::Cancelled => {
                self.stage = PeerStage::Stopped;
            },
        }
        self.action()
    }
}

} // verus!
