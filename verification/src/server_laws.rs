//! What holds of inbound sessions as a whole: of every session, whatever
//! happens to it and in whatever order.

use crate::client_laws::bumped_times;
use crate::disconnect::{DisconnectReason, IoErrorKind};
use crate::families::bumped;
use crate::metrics::{
    disconnect_labels, law_disconnect_counters_shown, law_disconnect_labels_told_apart,
    law_peer_labels_told_apart, peer_labels, server_reasons, Readings,
};
use crate::protocol::{law_packet_read_back, packet, packet_heartbeat, Heartbeat};
use crate::server::{ServerAction, ServerEvent, ServerRequest, ServerStage, ServerState};
use vstd::prelude::*;

verus! {

/// The state after a number of events.
pub open spec fn run(state: ServerState, events: Seq<ServerEvent>) -> ServerState
    decreases events.len(),
{
    if events.len() == 0 {
        state
    } else {
        run(state, events.drop_last()).after(events.last())
    }
}

/// What the metrics show after a number of events.
pub open spec fn run_readings(
    state: ServerState,
    events: Seq<ServerEvent>,
    before: Readings,
) -> Readings
    decreases events.len(),
{
    if events.len() == 0 {
        before
    } else {
        run(state, events.drop_last()).readings(
            events.last(),
            run_readings(state, events.drop_last(), before),
        )
    }
}

/// Whether each of the events answers what the session asked for.
pub open spec fn answers(state: ServerState, events: Seq<ServerEvent>) -> bool
    decreases events.len(),
{
    events.len() > 0 ==> answers(state, events.drop_last()) && run(
        state,
        events.drop_last(),
    ).expects(events.last())
}

/// How many packets came.
pub open spec fn received(events: Seq<ServerEvent>) -> nat
    decreases events.len(),
{
    if events.len() == 0 {
        0
    } else {
        received(events.drop_last()) + if events.last() is Received {
            1nat
        } else {
            0nat
        }
    }
}

/// How many packets were sent back.
pub open spec fn echoed(events: Seq<ServerEvent>) -> nat
    decreases events.len(),
{
    if events.len() == 0 {
        0
    } else {
        echoed(events.drop_last()) + if events.last() is Echoed {
            1nat
        } else {
            0nat
        }
    }
}

/// Nothing that happens changes who the session is with and how long it waits.
pub proof fn law_run_keeps_identity(state: ServerState, events: Seq<ServerEvent>)
    ensures
        run(state, events).node == state.node,
        run(state, events).peer == state.peer,
        run(state, events).recv_timeout == state.recv_timeout,
    decreases events.len(),
{
    if events.len() > 0 {
        law_run_keeps_identity(state, events.drop_last());
    }
}

/// A heartbeat comes back to its sender as it was sent.
pub proof fn law_echo_brings_the_heartbeat_back(
    state: ServerState,
    event: ServerEvent,
    seq: u64,
    timestamp: u64,
)
    requires
        event matches ServerEvent::Received(bytes) && bytes@ == packet(seq, timestamp),
    ensures
        state.request(event) matches ServerRequest::Echo(bytes) && bytes == packet(seq, timestamp)
            && packet_heartbeat(bytes) == (Heartbeat { seq, timestamp }),
{
    law_packet_read_back(seq, timestamp);
}

/// Every packet is sent back before the next one is waited for, unless the
/// session ends first.
pub proof fn law_packets_echoed_in_turn(
    node: Seq<char>,
    peer: Seq<char>,
    recv_timeout: u64,
    events: Seq<ServerEvent>,
)
    requires
        answers(ServerState::fresh(node, peer, recv_timeout), events),
    ensures
        ({
            let stage = run(ServerState::fresh(node, peer, recv_timeout), events).stage;
            &&& stage is Receiving ==> received(events) == echoed(events)
            &&& stage is Echoing ==> received(events) == echoed(events) + 1
            &&& echoed(events) <= received(events) <= echoed(events) + 1
        }),
    decreases events.len(),
{
    if events.len() > 0 {
        law_packets_echoed_in_turn(node, peer, recv_timeout, events.drop_last());
    }
}

/// An inbound session is counted once, and each packet that comes in it once.
pub proof fn law_counters_count_events(
    node: Seq<char>,
    peer: Seq<char>,
    recv_timeout: u64,
    events: Seq<ServerEvent>,
    before: Readings,
)
    ensures
        ({
            let fresh = ServerState::fresh(node, peer, recv_timeout);
            let now = run_readings(fresh, events, fresh.opened(before));
            let labels = peer_labels(node, peer);
            &&& now.srv_sessions_total == bumped(before.srv_sessions_total, labels)
            &&& now.srv_heartbeats_rx == bumped_times(
                before.srv_heartbeats_rx,
                labels,
                received(events),
            )
        }),
    decreases events.len(),
{
    if events.len() > 0 {
        let fresh = ServerState::fresh(node, peer, recv_timeout);
        law_counters_count_events(node, peer, recv_timeout, events.drop_last(), before);
        law_run_keeps_identity(fresh, events.drop_last());
    }
}

/// An inbound session that is over is counted once, under the reason for which
/// it ended; one that goes on is not counted as a disconnect.
pub proof fn law_disconnects_counted_once(
    state: ServerState,
    events: Seq<ServerEvent>,
    before: Readings,
)
    requires
        !(state.stage is Ended),
        answers(state, events),
    ensures
        ({
            let now = run_readings(state, events, before);
            if run(state, events).stage is Ended {
                let last = run(state, events.drop_last());
                last.end(events.last()) matches Some(reason) && now.srv_disconnects == bumped(
                    before.srv_disconnects,
                    disconnect_labels(state.node, state.peer, reason),
                )
            } else {
                now.srv_disconnects == before.srv_disconnects
            }
        }),
    decreases events.len(),
{
    if events.len() > 0 {
        law_disconnects_counted_once(state, events.drop_last(), before);
        law_run_keeps_identity(state, events.drop_last());
        assert(!(run(state, events.drop_last()).stage is Ended));
    }
}

/// Whatever an inbound session ends for has its counter since the session was
/// opened, and it is never a failed connect.
pub proof fn law_ends_for_a_known_reason(state: ServerState, event: ServerEvent, before: Readings)
    ensures
        state.end(event) matches Some(reason) ==> {
            &&& server_reasons().contains(reason)
            &&& reason != DisconnectReason::ConnectFailed
            &&& state.opened(before).srv_disconnects.contains_key(
                disconnect_labels(state.node, state.peer, reason),
            )
        },
{
    assert(server_reasons()[0] == DisconnectReason::RemoteClose);
    assert(server_reasons()[1] == DisconnectReason::ConnectionReset);
    assert(server_reasons()[2] == DisconnectReason::Timeout);
    assert(server_reasons()[3] == DisconnectReason::LocalError);
    if let Some(reason) = state.end(event) {
        law_disconnect_counters_shown(before, state.node, state.peer, reason);
    }
}

/// Whether a receive or an echo failed in the given way.
pub open spec fn failed_with(event: ServerEvent, kind: IoErrorKind) -> bool {
    event == ServerEvent::ReceiveFailed(kind) || event == ServerEvent::EchoFailed(kind)
}

/// Silence, a close by the remote side, a reset and an error on this host are
/// told apart.
pub proof fn law_ends_told_apart(state: ServerState, event: ServerEvent)
    ensures
        state.end(event) == Some(DisconnectReason::Timeout) <==> event is TimedOut,
        state.end(event) == Some(DisconnectReason::RemoteClose) <==> failed_with(
            event,
            IoErrorKind::UnexpectedEof,
        ),
        state.end(event) == Some(DisconnectReason::ConnectionReset) <==> failed_with(
            event,
            IoErrorKind::ConnectionReset,
        ),
        state.end(event) == Some(DisconnectReason::LocalError) <==> failed_with(
            event,
            IoErrorKind::BrokenPipe,
        ) || failed_with(event, IoErrorKind::Other),
{
}

/// What happens in an inbound session changes no metric of outbound ones, and
/// of the inbound ones only those of its own peer.
pub proof fn law_session_keeps_to_its_peer(
    state: ServerState,
    event: ServerEvent,
    before: Readings,
    node: Seq<char>,
    peer: Seq<char>,
    reason: DisconnectReason,
)
    requires
        node != state.node || peer != state.peer,
    ensures
        ({
            let now = state.readings(event, before);
            let labels = peer_labels(node, peer);
            let ends = disconnect_labels(node, peer, reason);
            &&& now.cli_session_active == before.cli_session_active
            &&& now.cli_sessions_total == before.cli_sessions_total
            &&& now.cli_heartbeats_sent == before.cli_heartbeats_sent
            &&& now.cli_heartbeats_rx == before.cli_heartbeats_rx
            &&& now.cli_heartbeats_missed == before.cli_heartbeats_missed
            &&& now.cli_consecutive_missed == before.cli_consecutive_missed
            &&& now.cli_disconnects == before.cli_disconnects
            &&& now.srv_sessions_total == before.srv_sessions_total
            &&& now.handles == before.handles
            &&& now.registered == before.registered
            &&& now.srv_open.count(labels) == before.srv_open.count(labels)
            &&& now.srv_session_active.contains_key(labels)
                == before.srv_session_active.contains_key(labels)
            &&& now.srv_session_active[labels] == before.srv_session_active[labels]
            &&& now.srv_heartbeats_rx.contains_key(labels)
                == before.srv_heartbeats_rx.contains_key(labels)
            &&& now.srv_heartbeats_rx[labels] == before.srv_heartbeats_rx[labels]
            &&& now.srv_disconnects.contains_key(ends) == before.srv_disconnects.contains_key(ends)
            &&& now.srv_disconnects[ends] == before.srv_disconnects[ends]
        }),
{
    law_peer_labels_told_apart(node, peer, state.node, state.peer);
    if let Some(own) = state.end(event) {
        law_disconnect_labels_told_apart(node, peer, reason, state.node, state.peer, own);
    }
}

/// A session that is over takes no further event.
pub proof fn law_ended_session_stays_ended(state: ServerState, event: ServerEvent)
    requires
        state.stage is Ended,
    ensures
        !state.expects(event),
{
}

/// A new session is with the peer that announced itself, waits as long as was
/// configured, and waits for a packet.
pub proof fn law_new_session_as_configured(node: Seq<char>, peer: Seq<char>, recv_timeout: u64)
    ensures
        ({
            let fresh = ServerState::fresh(node, peer, recv_timeout);
            &&& fresh.node == node
            &&& fresh.peer == peer
            &&& fresh.recv_timeout == recv_timeout
            &&& fresh.stage == ServerStage::Receiving
        }),
{
}

/// Whenever an inbound session waits for a packet it waits for the configured
/// time, whatever came before.
pub proof fn law_waits_as_configured(
    node: Seq<char>,
    peer: Seq<char>,
    recv_timeout: u64,
    events: Seq<ServerEvent>,
)
    requires
        events.len() > 0,
        answers(ServerState::fresh(node, peer, recv_timeout), events),
        run(ServerState::fresh(node, peer, recv_timeout), events).stage is Receiving,
    ensures
        run(ServerState::fresh(node, peer, recv_timeout), events.drop_last()).request(
            events.last(),
        ) == ServerRequest::Receive(recv_timeout),
{
    law_run_keeps_identity(
        ServerState::fresh(node, peer, recv_timeout),
        events.drop_last(),
    );
}

/// Every packet is asked to be sent back byte for byte, and after the echo the
/// session waits for the next one. Neither ends a session; only silence and
/// failures do, and what has ended asks for nothing more.
pub proof fn law_session_steps_in_turn(state: ServerState, event: ServerEvent)
    ensures
        event matches ServerEvent::Received(packet) ==> {
            &&& state.end(event) is None
            &&& state.after(event).stage == ServerStage::Echoing
            &&& state.request(event) == ServerRequest::Echo(packet@)
        },
        event is Echoed ==> {
            &&& state.end(event) is None
            &&& state.after(event).stage == ServerStage::Receiving
            &&& state.request(event) == ServerRequest::Receive(state.recv_timeout)
        },
        event is TimedOut || event is ReceiveFailed || event is EchoFailed ==> {
            &&& state.end(event) is Some
            &&& state.after(event).stage == ServerStage::Ended
            &&& state.request(event) == ServerRequest::End(state.end(event)->0)
        },
        state.after(event).node == state.node,
        state.after(event).peer == state.peer,
        state.after(event).recv_timeout == state.recv_timeout,
{
}

/// An inbound session expects exactly what can come of what it is doing.
pub proof fn law_session_expects_what_it_asked_for(state: ServerState, event: ServerEvent)
    ensures
        event is Received || event is TimedOut || event is ReceiveFailed ==> (state.expects(event)
            <==> state.stage == ServerStage::Receiving),
        event is Echoed || event is EchoFailed ==> (state.expects(event) <==> state.stage
            == ServerStage::Echoing),
{
}

/// What a session is told to do is what it asks for, number for number and byte
/// for byte.
pub proof fn law_session_actions_as_asked(action: ServerAction)
    ensures
        action matches ServerAction::Receive(seconds) ==> action@ == ServerRequest::Receive(
            seconds,
        ),
        action matches ServerAction::Echo(packet) ==> action@ == ServerRequest::Echo(packet@),
        action matches ServerAction::End(reason) ==> action@ == ServerRequest::End(reason),
        action is Receive <==> action@ is Receive,
        action is Echo <==> action@ is Echo,
        action is End <==> action@ is End,
{
}

/// Opening a session makes its peer active and counts the session. Apart from
/// disconnect counters that it makes, it changes nothing else.
pub proof fn law_opening_counts_the_session(
    state: ServerState,
    before: Readings,
    node: Seq<char>,
    peer: Seq<char>,
)
    ensures
        ({
            let now = state.opened(before);
            let own = peer_labels(state.node, state.peer);
            let labels = peer_labels(node, peer);
            &&& now.srv_session_active.contains_key(own)
            &&& now.srv_session_active[own] == 1
            &&& now.srv_sessions_total.contains_key(own)
            &&& before.srv_sessions_total.contains_key(own) && before.srv_sessions_total[own]
                < u64::MAX ==> now.srv_sessions_total[own] == before.srv_sessions_total[own] + 1
            &&& !before.srv_sessions_total.contains_key(own) ==> now.srv_sessions_total[own] == 1
            &&& now.srv_open.count(own) == before.srv_open.count(own) + 1
            &&& node != state.node || peer != state.peer ==> {
                &&& now.srv_session_active.contains_key(labels)
                    == before.srv_session_active.contains_key(labels)
                &&& now.srv_session_active[labels] == before.srv_session_active[labels]
                &&& now.srv_sessions_total.contains_key(labels)
                    == before.srv_sessions_total.contains_key(labels)
                &&& now.srv_sessions_total[labels] == before.srv_sessions_total[labels]
                &&& now.srv_open.count(labels) == before.srv_open.count(labels)
            }
            &&& now.srv_heartbeats_rx == before.srv_heartbeats_rx
            &&& now.cli_session_active == before.cli_session_active
            &&& now.cli_sessions_total == before.cli_sessions_total
            &&& now.cli_heartbeats_sent == before.cli_heartbeats_sent
            &&& now.cli_heartbeats_rx == before.cli_heartbeats_rx
            &&& now.cli_heartbeats_missed == before.cli_heartbeats_missed
            &&& now.cli_consecutive_missed == before.cli_consecutive_missed
            &&& now.handles == before.handles
            &&& now.registered == before.registered
        }),
{
    law_peer_labels_told_apart(node, peer, state.node, state.peer);
}

} // verus!
