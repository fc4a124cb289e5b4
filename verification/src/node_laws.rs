//! What holds of a node as a whole: of all its sessions and of what a scrape
//! shows, whatever happens and in whatever order.

use crate::client::{live, ClientEvent, ClientState, PeerEvent, PeerState, SessionEnd};
use crate::client_laws::law_step_keeps_wf;
use crate::disconnect::DisconnectReason;
use crate::exposition::{
    all_families, counter_line, gauge_line, header, holds_text, law_scrape_shows_counters,
    law_scrape_shows_gauges,
};
use crate::families::{Counts, Labels, Levels};
use crate::metrics::{
    all_metrics, client_reasons, disconnect_labels, law_catalogue_is_complete, no_readings,
    peer_labels, server_reasons, with_disconnect_labels, with_reasons, Handles, Metric, Readings,
};
use crate::server::{ServerEvent, ServerState};
use vstd::prelude::*;

verus! {

/// Something that happens in a node.
pub ghost enum Turn {
    /// A loop for a peer starts.
    LoopStarted { node: Seq<char>, peer: Seq<char> },
    /// Something happens in the loop for a peer.
    Loop { state: PeerState, event: PeerEvent },
    /// A connection to a peer is there, and an outbound session begins over it.
    Connected { node: Seq<char>, peer: Seq<char>, interval: nat, max_misses: nat },
    /// Something happens in one of the outbound sessions.
    Outbound { session: int, event: ClientEvent },
    /// An inbound session is opened.
    Opened { node: Seq<char>, peer: Seq<char>, recv_timeout: u64 },
    /// Something happens in one of the inbound sessions.
    Inbound { session: int, event: ServerEvent },
}

/// An outbound session, and whether it ever was established.
pub ghost struct OutboundSession {
    pub state: ClientState,
    pub established: bool,
}

impl OutboundSession {
    /// The labels of its metrics.
    pub open spec fn labels(self) -> Labels {
        peer_labels(self.state.node, self.state.peer)
    }

    /// The session after an event.
    pub open spec fn after(self, event: ClientEvent) -> OutboundSession {
        OutboundSession {
            state: self.state.after(event),
            established: self.established || event is GreetingSent,
        }
    }
}

/// The sessions of a node, those that are over included, and what its metrics
/// show.
pub ghost struct Node {
    pub inbound: Seq<ServerState>,
    pub outbound: Seq<OutboundSession>,
    pub readings: Readings,
}

impl Node {
    /// Whether the turn can come: a session gets what it expects, and an
    /// outbound session to a peer begins only when none is under way.
    pub open spec fn expects(self, turn: Turn) -> bool {
        match turn {
            Turn::Inbound { session, event } => 0 <= session < self.inbound.len()
                && self.inbound[session].expects(event),
            Turn::Outbound { session, event } => 0 <= session < self.outbound.len()
                && self.outbound[session].state.expects(event),
            Turn::Connected { node, peer, max_misses, .. } => {
                &&& max_misses <= u32::MAX
                &&& forall|i: int|
                    0 <= i < self.outbound.len() && (#[trigger] self.outbound[i]).labels()
                        == peer_labels(node, peer) ==> self.outbound[i].state.stage is Ended
            },
            _ => true,
        }
    }

    /// The node after the turn.
    pub open spec fn after(self, turn: Turn) -> Node {
        match turn {
            Turn::LoopStarted { node, peer } => Node {
                readings: with_disconnect_labels(self.readings, node, peer),
                ..self
            },
            Turn::Loop { state, event } => Node {
                readings: state.readings(event, self.readings),
                ..self
            },
            Turn::Connected { node, peer, interval, max_misses } => Node {
                outbound: self.outbound.push(
                    OutboundSession {
                        state: ClientState::fresh(node, peer, interval, max_misses),
                        established: false,
                    },
                ),
                ..self
            },
            Turn::Outbound { session, event } => Node {
                outbound: self.outbound.update(session, self.outbound[session].after(event)),
                readings: self.outbound[session].state.readings(event, self.readings),
                ..self
            },
            Turn::Opened { node, peer, recv_timeout } => {
                let fresh = ServerState::fresh(node, peer, recv_timeout);
                Node {
                    inbound: self.inbound.push(fresh),
                    readings: fresh.opened(self.readings),
                    ..self
                }
            },
            Turn::Inbound { session, event } => Node {
                inbound: self.inbound.update(session, self.inbound[session].after(event)),
                readings: self.inbound[session].readings(event, self.readings),
                ..self
            },
        }
    }
}

/// The node after a number of turns.
pub open spec fn run(start: Node, turns: Seq<Turn>) -> Node
    decreases turns.len(),
{
    if turns.len() == 0 {
        start
    } else {
        run(start, turns.drop_last()).after(turns.last())
    }
}

/// Whether each of the turns can come when it does.
pub open spec fn sensible(start: Node, turns: Seq<Turn>) -> bool
    decreases turns.len(),
{
    turns.len() > 0 ==> sensible(start, turns.drop_last()) && run(
        start,
        turns.drop_last(),
    ).expects(turns.last())
}

/// A node to which nothing has happened yet.
pub open spec fn fresh_node(handles: Handles) -> Node {
    Node { inbound: Seq::empty(), outbound: Seq::empty(), readings: no_readings(handles) }
}

/// Whether a session is open and has the given labels.
pub open spec fn is_live(session: ServerState, labels: Labels) -> bool {
    !(session.stage is Ended) && peer_labels(session.node, session.peer) == labels
}

/// How many sessions with the given labels are open.
pub open spec fn live_sessions(sessions: Seq<ServerState>, labels: Labels) -> nat
    decreases sessions.len(),
{
    if sessions.len() == 0 {
        0
    } else {
        live_sessions(sessions.drop_last(), labels) + if is_live(sessions.last(), labels) {
            1nat
        } else {
            0nat
        }
    }
}

/// A change of one session changes the number of open ones by that session.
proof fn lemma_live_sessions_updated(
    sessions: Seq<ServerState>,
    i: int,
    session: ServerState,
    labels: Labels,
)
    requires
        0 <= i < sessions.len(),
    ensures
        live_sessions(sessions.update(i, session), labels) + (if is_live(sessions[i], labels) {
            1nat
        } else {
            0nat
        }) == live_sessions(sessions, labels) + if is_live(session, labels) {
            1nat
        } else {
            0nat
        },
    decreases sessions.len(),
{
    let updated = sessions.update(i, session);
    if i == sessions.len() - 1 {
        assert(updated.drop_last() =~= sessions.drop_last());
    } else {
        lemma_live_sessions_updated(sessions.drop_last(), i, session, labels);
        assert(updated.drop_last() =~= sessions.drop_last().update(i, session));
    }
}

/// There are open sessions exactly if one of the sessions is open.
proof fn lemma_live_sessions_found(sessions: Seq<ServerState>, labels: Labels)
    ensures
        live_sessions(sessions, labels) > 0 <==> exists|i: int|
            0 <= i < sessions.len() && is_live(#[trigger] sessions[i], labels),
    decreases sessions.len(),
{
    if sessions.len() > 0 {
        let before = sessions.drop_last();
        lemma_live_sessions_found(before, labels);
        if live_sessions(before, labels) > 0 {
            let i = choose|i: int| 0 <= i < before.len() && is_live(#[trigger] before[i], labels);
            assert(is_live(sessions[i], labels));
        }
        if exists|i: int| 0 <= i < sessions.len() && is_live(#[trigger] sessions[i], labels) {
            let i = choose|i: int|
                0 <= i < sessions.len() && is_live(#[trigger] sessions[i], labels);
            if i < before.len() {
                assert(is_live(before[i], labels));
            }
        }
        if is_live(sessions.last(), labels) {
            assert(is_live(sessions[sessions.len() - 1], labels));
        }
    }
}

/// Whether the active gauge of the peer of an inbound session is right: it shows
/// 1 as long as a session with the peer is open, and 0 otherwise.
pub open spec fn inbound_gauge_right(node: Node, session: ServerState) -> bool {
    let labels = peer_labels(session.node, session.peer);
    &&& node.readings.srv_session_active.contains_key(labels)
    &&& node.readings.srv_session_active[labels] == if live_sessions(node.inbound, labels) > 0 {
        1i64
    } else {
        0i64
    }
}

/// What holds of the inbound side at all times: the open sessions that are
/// counted are those that are open, and the gauges are right.
pub open spec fn keeps_count(node: Node) -> bool {
    &&& forall|labels: Labels| #[trigger]
        node.readings.srv_open.count(labels) == live_sessions(node.inbound, labels)
    &&& forall|i: int|
        0 <= i < node.inbound.len() ==> inbound_gauge_right(node, #[trigger] node.inbound[i])
}

/// One turn keeps the count of open sessions.
proof fn lemma_turn_keeps_count(node: Node, turn: Turn)
    requires
        keeps_count(node),
        node.expects(turn),
    ensures
        keeps_count(node.after(turn)),
{
    let next = node.after(turn);
    assert forall|labels: Labels| #[trigger]
        next.readings.srv_open.count(labels) == live_sessions(next.inbound, labels) by {
        assert(node.readings.srv_open.count(labels) == live_sessions(node.inbound, labels));
        match turn {
            Turn::Opened { .. } => {
                assert(next.inbound.drop_last() =~= node.inbound);
            },
            Turn::Inbound { session, event } => {
                let state = node.inbound[session];
                let own = peer_labels(state.node, state.peer);
                lemma_live_sessions_updated(node.inbound, session, state.after(event), labels);
                assert(is_live(node.inbound[session], own));
                lemma_live_sessions_found(node.inbound, own);
                assert(node.readings.srv_open.count(own) == live_sessions(node.inbound, own));
            },
            _ => {},
        }
    }
    assert forall|i: int| 0 <= i < next.inbound.len() implies inbound_gauge_right(
        next,
        #[trigger] next.inbound[i],
    ) by {
        let labels = peer_labels(next.inbound[i].node, next.inbound[i].peer);
        assert(next.readings.srv_open.count(labels) == live_sessions(next.inbound, labels));
        match turn {
            Turn::Opened { .. } => {
                assert(next.inbound.drop_last() =~= node.inbound);
                if i < node.inbound.len() {
                    assert(next.inbound[i] == node.inbound[i]);
                }
            },
            Turn::Inbound { session, event } => {
                assert(labels == peer_labels(node.inbound[i].node, node.inbound[i].peer));
                lemma_live_sessions_updated(
                    node.inbound,
                    session,
                    node.inbound[session].after(event),
                    labels,
                );
            },
            _ => {
                assert(next.inbound[i] == node.inbound[i]);
            },
        }
    }
}

/// The count of open sessions is right after any turns.
proof fn lemma_run_keeps_count(handles: Handles, turns: Seq<Turn>)
    requires
        sensible(fresh_node(handles), turns),
    ensures
        keeps_count(run(fresh_node(handles), turns)),
    decreases turns.len(),
{
    if turns.len() > 0 {
        lemma_run_keeps_count(handles, turns.drop_last());
        lemma_turn_keeps_count(run(fresh_node(handles), turns.drop_last()), turns.last());
    }
}

/// Whatever happens in a node, and however its sessions overlap: the active
/// gauge of a peer that has or had inbound sessions shows 1 while one of them
/// is open, and 0 once all are over.
pub proof fn law_active_gauge_shows_live_sessions(handles: Handles, turns: Seq<Turn>, i: int)
    requires
        sensible(fresh_node(handles), turns),
        0 <= i < run(fresh_node(handles), turns).inbound.len(),
    ensures
        ({
            let now = run(fresh_node(handles), turns);
            let labels = peer_labels(now.inbound[i].node, now.inbound[i].peer);
            &&& now.readings.srv_session_active.contains_key(labels)
            &&& now.readings.srv_session_active[labels] == if exists|k: int|
                0 <= k < now.inbound.len() && is_live(#[trigger] now.inbound[k], labels) {
                1i64
            } else {
                0i64
            }
        }),
{
    let now = run(fresh_node(handles), turns);
    lemma_run_keeps_count(handles, turns);
    lemma_live_sessions_found(
        now.inbound,
        peer_labels(now.inbound[i].node, now.inbound[i].peer),
    );
}

/// Whether an outbound session is established and has the given labels.
pub open spec fn is_live_outbound(session: OutboundSession, labels: Labels) -> bool {
    live(session.state.stage) && session.labels() == labels
}

/// Whether an outbound session with the given labels is established.
pub open spec fn some_live_outbound(node: Node, labels: Labels) -> bool {
    exists|i: int|
        0 <= i < node.outbound.len() && is_live_outbound(#[trigger] node.outbound[i], labels)
}

/// Whether an outbound session with the given labels ever was established.
pub open spec fn some_established(node: Node, labels: Labels) -> bool {
    exists|i: int|
        0 <= i < node.outbound.len() && (#[trigger] node.outbound[i]).established
            && node.outbound[i].labels() == labels
}

/// What holds of the outbound side at all times: at most one session with a peer
/// is under way, and the gauges show the sessions.
pub open spec fn keeps_outbound(node: Node) -> bool {
    &&& forall|i: int|
        0 <= i < node.outbound.len() ==> (#[trigger] node.outbound[i]).state.wf()
            && node.outbound[i].state.max_misses <= u32::MAX
    &&& forall|i: int|
        0 <= i < node.outbound.len() && live((#[trigger] node.outbound[i]).state.stage)
            ==> node.outbound[i].established
    &&& forall|i: int, k: int|
        0 <= i < k < node.outbound.len() && (#[trigger] node.outbound[i]).labels() == (
        #[trigger] node.outbound[k]).labels() ==> node.outbound[i].state.stage is Ended
            || node.outbound[k].state.stage is Ended
    &&& forall|i: int|
        0 <= i < node.outbound.len() && live((#[trigger] node.outbound[i]).state.stage) ==> {
            let labels = node.outbound[i].labels();
            &&& node.readings.cli_session_active[labels] == 1
            &&& node.readings.cli_consecutive_missed.contains_key(labels)
            &&& node.readings.cli_consecutive_missed[labels] == node.outbound[i].state.missed
        }
    &&& forall|labels: Labels| #[trigger]
        node.readings.cli_session_active.contains_key(labels) <==> some_established(node, labels)
    &&& forall|labels: Labels| #[trigger]
        node.readings.cli_session_active.contains_key(labels) && !some_live_outbound(node, labels)
            ==> node.readings.cli_session_active[labels] == 0
}

/// An event of an outbound session keeps what holds of the outbound side.
proof fn lemma_outbound_event_keeps_outbound(node: Node, session: int, event: ClientEvent)
    requires
        keeps_outbound(node),
        node.expects(Turn::Outbound { session, event }),
    ensures
        keeps_outbound(node.after(Turn::Outbound { session, event })),
{
    let next = node.after(Turn::Outbound { session, event });
    let own = node.outbound[session].labels();
    let before = node.readings.cli_session_active;
    let now = next.readings.cli_session_active;
    law_step_keeps_wf(node.outbound[session].state, event);
    assert(next.outbound[session].labels() == own);
    assert forall|i: int| 0 <= i < node.outbound.len() && i != session implies
        #[trigger] next.outbound[i] == node.outbound[i] by {}
    assert forall|i: int|
        0 <= i < next.outbound.len() && i != session && (
        #[trigger] next.outbound[i]).labels() == own implies next.outbound[i].state.stage is Ended by {
        assert(node.outbound[i].labels() == node.outbound[session].labels());
    }
    assert forall|i: int|
        0 <= i < next.outbound.len() && live((#[trigger] next.outbound[i]).state.stage) implies ({
        let labels = next.outbound[i].labels();
        &&& next.readings.cli_session_active[labels] == 1
        &&& next.readings.cli_consecutive_missed.contains_key(labels)
        &&& next.readings.cli_consecutive_missed[labels] == next.outbound[i].state.missed
    }) by {
        assert(next.outbound[i].labels() == node.outbound[i].labels());
    }
    assert forall|labels: Labels| #[trigger] now.contains_key(labels) <==> some_established(
        next,
        labels,
    ) by {
        assert(before.contains_key(labels) <==> some_established(node, labels));
        if some_established(node, labels) {
            let i = choose|i: int|
                0 <= i < node.outbound.len() && (#[trigger] node.outbound[i]).established
                    && node.outbound[i].labels() == labels;
            assert(next.outbound[i].established && next.outbound[i].labels() == labels);
        }
        if some_established(next, labels) {
            let i = choose|i: int|
                0 <= i < next.outbound.len() && (#[trigger] next.outbound[i]).established
                    && next.outbound[i].labels() == labels;
            if node.outbound[i].established {
                assert(some_established(node, labels));
            } else {
                assert(i == session && event is GreetingSent);
            }
        }
        if labels == own && live(node.outbound[session].state.stage) {
            assert(node.outbound[session].established);
            assert(some_established(node, labels));
        }
        if labels == own && event is GreetingSent {
            assert(next.outbound[session].established);
        }
    }
    assert forall|labels: Labels| #[trigger]
        now.contains_key(labels) && !some_live_outbound(next, labels) implies now[labels] == 0 by {
        if labels != own {
            if some_live_outbound(node, labels) {
                let i = choose|i: int|
                    0 <= i < node.outbound.len() && is_live_outbound(
                        #[trigger] node.outbound[i],
                        labels,
                    );
                assert(is_live_outbound(next.outbound[i], labels));
            }
            assert(before.contains_key(labels));
        } else {
            assert(!is_live_outbound(next.outbound[session], labels));
            if !live(node.outbound[session].state.stage) {
                if some_live_outbound(node, labels) {
                    let i = choose|i: int|
                        0 <= i < node.outbound.len() && is_live_outbound(
                            #[trigger] node.outbound[i],
                            labels,
                        );
                    assert(is_live_outbound(next.outbound[i], labels));
                }
                assert(before.contains_key(labels));
            }
        }
    }
}

/// One turn keeps what holds of the outbound side.
proof fn lemma_turn_keeps_outbound(node: Node, turn: Turn)
    requires
        keeps_outbound(node),
        node.expects(turn),
    ensures
        keeps_outbound(node.after(turn)),
{
    let next = node.after(turn);
    match turn {
        Turn::Outbound { session, event } => {
            lemma_outbound_event_keeps_outbound(node, session, event);
        },
        Turn::Connected { interval, .. } => {
            let n = node.outbound.len() as int;
            assert(interval * 0 == 0) by (nonlinear_arith);
            assert forall|i: int| 0 <= i < n implies #[trigger] next.outbound[i]
                == node.outbound[i] by {}
            assert forall|labels: Labels|
                some_established(next, labels) == some_established(node, labels)
                    && some_live_outbound(next, labels) == some_live_outbound(node, labels) by {
                if some_established(node, labels) {
                    let i = choose|i: int|
                        0 <= i < n && (#[trigger] node.outbound[i]).established
                            && node.outbound[i].labels() == labels;
                    assert(next.outbound[i].established);
                }
                if some_established(next, labels) {
                    let i = choose|i: int|
                        0 <= i < n + 1 && (#[trigger] next.outbound[i]).established
                            && next.outbound[i].labels() == labels;
                    assert(node.outbound[i].established);
                }
                if some_live_outbound(node, labels) {
                    let i = choose|i: int|
                        0 <= i < n && is_live_outbound(#[trigger] node.outbound[i], labels);
                    assert(is_live_outbound(next.outbound[i], labels));
                }
                if some_live_outbound(next, labels) {
                    let i = choose|i: int|
                        0 <= i < n + 1 && is_live_outbound(#[trigger] next.outbound[i], labels);
                    assert(is_live_outbound(node.outbound[i], labels));
                }
            }
        },
        _ => {
            assert(next.outbound == node.outbound);
            assert(next.readings.cli_session_active == node.readings.cli_session_active);
            assert(next.readings.cli_consecutive_missed == node.readings.cli_consecutive_missed);
            assert forall|labels: Labels|
                #[trigger] some_established(next, labels) == some_established(node, labels) by {}
            assert forall|labels: Labels|
                #[trigger] some_live_outbound(next, labels) == some_live_outbound(node, labels) by {}
        },
    }
}

proof fn lemma_run_keeps_outbound(handles: Handles, turns: Seq<Turn>)
    requires
        sensible(fresh_node(handles), turns),
    ensures
        keeps_outbound(run(fresh_node(handles), turns)),
    decreases turns.len(),
{
    if turns.len() > 0 {
        lemma_run_keeps_outbound(handles, turns.drop_last());
        lemma_turn_keeps_outbound(run(fresh_node(handles), turns.drop_last()), turns.last());
    }
}

/// Whatever happens in a node that has at most one outbound session of a peer
/// under way at a time: the active gauge of a peer to which an outbound session
/// ever was established shows 1 exactly while one is, and 0 otherwise; of other
/// peers there is none.
pub proof fn law_active_gauge_shows_outbound_sessions(
    handles: Handles,
    turns: Seq<Turn>,
    node: Seq<char>,
    peer: Seq<char>,
)
    requires
        sensible(fresh_node(handles), turns),
    ensures
        ({
            let now = run(fresh_node(handles), turns);
            let labels = peer_labels(node, peer);
            &&& now.readings.cli_session_active.contains_key(labels) <==> some_established(
                now,
                labels,
            )
            &&& some_established(now, labels) ==> now.readings.cli_session_active[labels]
                == if some_live_outbound(now, labels) {
                1i64
            } else {
                0i64
            }
        }),
{
    let now = run(fresh_node(handles), turns);
    let labels = peer_labels(node, peer);
    lemma_run_keeps_outbound(handles, turns);
    assert(now.readings.cli_session_active.contains_key(labels) <==> some_established(
        now,
        labels,
    ));
    if some_live_outbound(now, labels) {
        let i = choose|i: int|
            0 <= i < now.outbound.len() && is_live_outbound(#[trigger] now.outbound[i], labels);
        assert(now.outbound[i].established);
    }
}

/// Likewise, the gauge of consecutive misses of a peer with an established
/// session shows the misses that the session counts.
pub proof fn law_missed_gauge_shows_outbound_sessions(
    handles: Handles,
    turns: Seq<Turn>,
    i: int,
)
    requires
        sensible(fresh_node(handles), turns),
        0 <= i < run(fresh_node(handles), turns).outbound.len(),
        live(run(fresh_node(handles), turns).outbound[i].state.stage),
    ensures
        ({
            let now = run(fresh_node(handles), turns);
            let labels = now.outbound[i].labels();
            &&& now.readings.cli_consecutive_missed.contains_key(labels)
            &&& now.readings.cli_consecutive_missed[labels] == now.outbound[i].state.missed
        }),
{
    lemma_run_keeps_outbound(handles, turns);
}

/// Whether these are the labels of a session.
pub open spec fn names_session(labels: Labels) -> bool {
    exists|node: Seq<char>, peer: Seq<char>| labels == #[trigger] peer_labels(node, peer)
}

/// Whether these are the labels of a disconnect.
pub open spec fn names_disconnect(labels: Labels) -> bool {
    exists|node: Seq<char>, peer: Seq<char>, reason: DisconnectReason|
        labels == #[trigger] disconnect_labels(node, peer, reason)
}

/// Whether all counters of a family have the labels of a session.
pub open spec fn count_sessions(counts: Counts) -> bool {
    forall|labels: Labels| #[trigger] counts.contains_key(labels) ==> names_session(labels)
}

/// Whether all gauges of a family have the labels of a session.
pub open spec fn gauge_sessions(levels: Levels) -> bool {
    forall|labels: Labels| #[trigger] levels.contains_key(labels) ==> names_session(labels)
}

/// Whether all counters of a family have the labels of a disconnect.
pub open spec fn count_disconnects(counts: Counts) -> bool {
    forall|labels: Labels| #[trigger] counts.contains_key(labels) ==> names_disconnect(labels)
}

/// Whether every family has the labels that it should have.
pub open spec fn well_labelled(readings: Readings) -> bool {
    &&& gauge_sessions(readings.srv_session_active)
    &&& count_sessions(readings.srv_sessions_total)
    &&& count_sessions(readings.srv_heartbeats_rx)
    &&& count_disconnects(readings.srv_disconnects)
    &&& gauge_sessions(readings.cli_session_active)
    &&& count_sessions(readings.cli_sessions_total)
    &&& count_sessions(readings.cli_heartbeats_sent)
    &&& count_sessions(readings.cli_heartbeats_rx)
    &&& count_sessions(readings.cli_heartbeats_missed)
    &&& gauge_sessions(readings.cli_consecutive_missed)
    &&& count_disconnects(readings.cli_disconnects)
}

proof fn lemma_reasons_well_labelled(
    counts: Counts,
    node: Seq<char>,
    peer: Seq<char>,
    reasons: Seq<DisconnectReason>,
    n: nat,
)
    requires
        count_disconnects(counts),
        n <= reasons.len(),
    ensures
        count_disconnects(with_reasons(counts, node, peer, reasons, n)),
    decreases n,
{
    if n > 0 {
        lemma_reasons_well_labelled(counts, node, peer, reasons, (n - 1) as nat);
        assert(names_disconnect(disconnect_labels(node, peer, reasons[n - 1])));
    }
}

proof fn lemma_with_labels_well_labelled(readings: Readings, node: Seq<char>, peer: Seq<char>)
    requires
        well_labelled(readings),
    ensures
        well_labelled(with_disconnect_labels(readings, node, peer)),
{
    let server = server_reasons();
    let client = client_reasons();
    lemma_reasons_well_labelled(readings.srv_disconnects, node, peer, server, server.len());
    lemma_reasons_well_labelled(readings.cli_disconnects, node, peer, client, client.len());
}

proof fn lemma_turn_well_labelled(node: Node, turn: Turn)
    requires
        well_labelled(node.readings),
    ensures
        well_labelled(node.after(turn).readings),
{
    match turn {
        Turn::LoopStarted { node: name, peer } => {
            lemma_with_labels_well_labelled(node.readings, name, peer);
        },
        Turn::Loop { state, event } => {
            assert(names_disconnect(
                disconnect_labels(state.node, state.peer, DisconnectReason::ConnectFailed),
            ));
        },
        Turn::Connected { .. } => {},
        Turn::Outbound { session, event } => {
            let state = node.outbound[session].state;
            assert(names_session(peer_labels(state.node, state.peer)));
            if let Some(SessionEnd::Lost(reason)) = state.end(event) {
                assert(names_disconnect(disconnect_labels(state.node, state.peer, reason)));
            }
        },
        Turn::Opened { node: name, peer, recv_timeout } => {
            lemma_with_labels_well_labelled(node.readings, name, peer);
            assert(names_session(peer_labels(name, peer)));
        },
        Turn::Inbound { session, event } => {
            let state = node.inbound[session];
            assert(names_session(peer_labels(state.node, state.peer)));
            if let Some(reason) = state.end(event) {
                assert(names_disconnect(disconnect_labels(state.node, state.peer, reason)));
            }
        },
    }
}

/// Whatever happens in a node, every metric carries the labels `node` and
/// `peer`, and a disconnect counter the label `reason` as well, and no others.
pub proof fn law_metrics_carry_their_labels(handles: Handles, turns: Seq<Turn>)
    ensures
        well_labelled(run(fresh_node(handles), turns).readings),
    decreases turns.len(),
{
    if turns.len() > 0 {
        law_metrics_carry_their_labels(handles, turns.drop_last());
        lemma_turn_well_labelled(run(fresh_node(handles), turns.drop_last()), turns.last());
    }
}

/// Whatever happens in a node, the families stay the ones that were registered,
/// each under the name of its metric.
pub proof fn law_families_stay_registered(handles: Handles, turns: Seq<Turn>)
    ensures
        run(fresh_node(handles), turns).readings.handles == handles,
        run(fresh_node(handles), turns).readings.registered == Some(
            handles.listing(all_metrics()),
        ),
    decreases turns.len(),
{
    if turns.len() > 0 {
        law_families_stay_registered(handles, turns.drop_last());
    }
}

/// Each metric that holds whole numbers is registered, under its own name, with
/// its own help text and its own family.
pub proof fn law_every_metric_registered(handles: Handles, metric: Metric)
    requires
        !metric.in_seconds(),
    ensures
        handles.listing(all_metrics()).contains(
            (metric.spec_name(), metric.spec_help() + "."@, handles.family(metric)),
        ),
{
    law_catalogue_is_complete(metric);
    let i = choose|i: int| 0 <= i < all_metrics().len() && all_metrics()[i] == metric;
    lemma_listed(handles, all_metrics(), i);
}

proof fn lemma_listed(handles: Handles, metrics: Seq<Metric>, i: int)
    requires
        0 <= i < metrics.len(),
        !metrics[i].in_seconds(),
    ensures
        handles.listing(metrics).contains(
            (metrics[i].spec_name(), metrics[i].spec_help() + "."@, handles.family(metrics[i])),
        ),
    decreases metrics.len(),
{
    let all = handles.listing(metrics);
    let entry = (
        metrics[i].spec_name(),
        metrics[i].spec_help() + "."@,
        handles.family(metrics[i]),
    );
    if i == metrics.len() - 1 {
        assert(all[all.len() - 1] == entry);
    } else {
        let before = handles.listing(metrics.drop_last());
        lemma_listed(handles, metrics.drop_last(), i);
        let k = choose|k: int| 0 <= k < before.len() && before[k] == entry;
        assert(all[k] == entry);
    }
}

/// The counters behind a metric that counts.
pub open spec fn counters_of(readings: Readings, metric: Metric) -> Option<Counts> {
    match metric {
        Metric::SrvSessionsTotal => Some(readings.srv_sessions_total),
        Metric::SrvHeartbeatsRx => Some(readings.srv_heartbeats_rx),
        Metric::SrvDisconnects => Some(readings.srv_disconnects),
        Metric::CliSessionsTotal => Some(readings.cli_sessions_total),
        Metric::CliHeartbeatsSent => Some(readings.cli_heartbeats_sent),
        Metric::CliHeartbeatsRx => Some(readings.cli_heartbeats_rx),
        Metric::CliHeartbeatsMissed => Some(readings.cli_heartbeats_missed),
        Metric::CliDisconnects => Some(readings.cli_disconnects),
        _ => None,
    }
}

/// The gauges behind a metric that goes up and down in whole numbers.
pub open spec fn gauges_of(readings: Readings, metric: Metric) -> Option<Levels> {
    match metric {
        Metric::SrvSessionActive => Some(readings.srv_session_active),
        Metric::CliSessionActive => Some(readings.cli_session_active),
        Metric::CliConsecutiveMissed => Some(readings.cli_consecutive_missed),
        _ => None,
    }
}

/// Whether every metric that holds whole numbers is registered with its own
/// family, whatever else is.
pub open spec fn all_registered(readings: Readings) -> bool {
    readings.registered matches Some(listing) && forall|metric: Metric|
        !metric.in_seconds() ==> listing.contains(
            (
                #[trigger] metric.spec_name(),
                metric.spec_help() + "."@,
                readings.handles.family(metric),
            ),
        )
}

/// Where every metric is registered, a scrape shows each counter of each metric
/// under the metric's name, with its labels and the value that it has.
pub proof fn law_scrape_shows_every_counter(
    readings: Readings,
    text: Seq<char>,
    metric: Metric,
    labels: Labels,
)
    requires
        all_registered(readings),
        readings.shown_by(text),
        counters_of(readings, metric) matches Some(counts) && counts.contains_key(labels),
    ensures
        holds_text(
            text,
            header(metric.spec_name(), metric.spec_help() + "."@, "counter"@),
        ),
        holds_text(
            text,
            counter_line(
                metric.spec_name(),
                labels,
                counters_of(readings, metric)->0[labels],
            ),
        ),
{
    let counts = counters_of(readings, metric)->0;
    let held = readings.held();
    let name = metric.spec_name();
    let handle = readings.handles.family(metric)->Counters_0;
    assert(held.counters[0] == (
        readings.handles.srv_sessions_total,
        readings.srv_sessions_total,
    ));
    assert(held.counters[1] == (readings.handles.srv_heartbeats_rx, readings.srv_heartbeats_rx));
    assert(held.counters[2] == (readings.handles.srv_disconnects, readings.srv_disconnects));
    assert(held.counters[3] == (
        readings.handles.cli_sessions_total,
        readings.cli_sessions_total,
    ));
    assert(held.counters[4] == (
        readings.handles.cli_heartbeats_sent,
        readings.cli_heartbeats_sent,
    ));
    assert(held.counters[5] == (readings.handles.cli_heartbeats_rx, readings.cli_heartbeats_rx));
    assert(held.counters[6] == (
        readings.handles.cli_heartbeats_missed,
        readings.cli_heartbeats_missed,
    ));
    assert(held.counters[7] == (readings.handles.cli_disconnects, readings.cli_disconnects));
    assert(held.counters.contains((handle, counts)));
    law_scrape_shows_counters(
        readings.registered->0,
        held,
        text,
        name,
        metric.spec_help() + "."@,
        handle,
        counts,
        labels,
    );
}

/// The same of gauges.
pub proof fn law_scrape_shows_every_gauge(
    readings: Readings,
    text: Seq<char>,
    metric: Metric,
    labels: Labels,
)
    requires
        all_registered(readings),
        readings.shown_by(text),
        gauges_of(readings, metric) matches Some(levels) && levels.contains_key(labels),
    ensures
        holds_text(
            text,
            header(metric.spec_name(), metric.spec_help() + "."@, "gauge"@),
        ),
        holds_text(
            text,
            gauge_line(metric.spec_name(), labels, gauges_of(readings, metric)->0[labels]),
        ),
{
    let levels = gauges_of(readings, metric)->0;
    let held = readings.held();
    let name = metric.spec_name();
    let handle = readings.handles.family(metric)->Gauges_0;
    assert(held.gauges[0] == (readings.handles.srv_session_active, readings.srv_session_active));
    assert(held.gauges[1] == (readings.handles.cli_session_active, readings.cli_session_active));
    assert(held.gauges[2] == (
        readings.handles.cli_consecutive_missed,
        readings.cli_consecutive_missed,
    ));
    assert(held.gauges.contains((handle, levels)));
    law_scrape_shows_gauges(
        readings.registered->0,
        held,
        text,
        name,
        metric.spec_help() + "."@,
        handle,
        levels,
        labels,
    );
}

/// Whatever has happened in a node, every metric that holds whole numbers is
/// still registered with its own family, so that a scrape shows what it holds.
pub proof fn law_every_metric_stays_registered(handles: Handles, turns: Seq<Turn>)
    ensures
        all_registered(run(fresh_node(handles), turns).readings),
        run(fresh_node(handles), turns).readings.only_families(),
{
    law_families_stay_registered(handles, turns);
    assert forall|metric: Metric| !metric.in_seconds() implies handles.listing(
        all_metrics(),
    ).contains(
        (#[trigger] metric.spec_name(), metric.spec_help() + "."@, handles.family(metric)),
    ) by {
        law_every_metric_registered(handles, metric);
    }
    lemma_listing_all_families(handles, all_metrics());
}

proof fn lemma_listing_all_families(handles: Handles, metrics: Seq<Metric>)
    ensures
        all_families(handles.listing(metrics)),
    decreases metrics.len(),
{
    if metrics.len() > 0 {
        lemma_listing_all_families(handles, metrics.drop_last());
    }
}

/// Whatever has happened in a node, a scrape shows of every peer that has or had
/// inbound sessions whether one of them is open.
pub proof fn law_scrape_shows_live_sessions(
    handles: Handles,
    turns: Seq<Turn>,
    i: int,
    text: Seq<char>,
)
    requires
        sensible(fresh_node(handles), turns),
        0 <= i < run(fresh_node(handles), turns).inbound.len(),
        run(fresh_node(handles), turns).readings.shown_by(text),
    ensures
        ({
            let now = run(fresh_node(handles), turns);
            let labels = peer_labels(now.inbound[i].node, now.inbound[i].peer);
            holds_text(
                text,
                gauge_line(
                    "tcp_monitor_server_session_active"@,
                    labels,
                    if exists|k: int|
                        0 <= k < now.inbound.len() && is_live(#[trigger] now.inbound[k], labels) {
                        1
                    } else {
                        0
                    },
                ),
            )
        }),
{
    let now = run(fresh_node(handles), turns);
    let labels = peer_labels(now.inbound[i].node, now.inbound[i].peer);
    law_active_gauge_shows_live_sessions(handles, turns, i);
    law_every_metric_stays_registered(handles, turns);
    law_scrape_shows_every_gauge(now.readings, text, Metric::SrvSessionActive, labels);
}

/// Whatever has happened in a node, a scrape shows of every peer to which an
/// outbound session ever was established whether one is.
pub proof fn law_scrape_shows_outbound_sessions(
    handles: Handles,
    turns: Seq<Turn>,
    node: Seq<char>,
    peer: Seq<char>,
    text: Seq<char>,
)
    requires
        sensible(fresh_node(handles), turns),
        some_established(run(fresh_node(handles), turns), peer_labels(node, peer)),
        run(fresh_node(handles), turns).readings.shown_by(text),
    ensures
        holds_text(
            text,
            gauge_line(
                "tcp_monitor_client_session_active"@,
                peer_labels(node, peer),
                if some_live_outbound(
                    run(fresh_node(handles), turns),
                    peer_labels(node, peer),
                ) {
                    1
                } else {
                    0
                },
            ),
        ),
{
    let now = run(fresh_node(handles), turns);
    law_active_gauge_shows_outbound_sessions(handles, turns, node, peer);
    law_every_metric_stays_registered(handles, turns);
    law_scrape_shows_every_gauge(
        now.readings,
        text,
        Metric::CliSessionActive,
        peer_labels(node, peer),
    );
}

} // verus!
