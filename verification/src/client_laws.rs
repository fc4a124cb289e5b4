//! What holds of outbound sessions as a whole: of every session, whatever
//! happens to it and in whatever order.

use crate::client::{
    client_reason, live, ClientAction, ClientEvent, ClientStage, ClientState, PeerAction,
    PeerEvent, PeerRequest, PeerStage, PeerState, SessionEnd,
};
use crate::disconnect::{DisconnectReason, IoErrorKind};
use crate::families::{bumped, Counts, Labels};
use crate::metrics::{
    client_reasons, disconnect_labels, law_disconnect_labels_told_apart,
    law_peer_labels_told_apart, peer_labels, Readings,
};
use crate::text::{address, decimal};
use vstd::prelude::*;

verus! {

/// The state after a number of events.
pub open spec fn run(state: ClientState, events: Seq<ClientEvent>) -> ClientState
    decreases events.len(),
{
    if events.len() == 0 {
        state
    } else {
        run(state, events.drop_last()).after(events.last())
    }
}

/// What the metrics show after a number of events.
pub open spec fn run_readings(
    state: ClientState,
    events: Seq<ClientEvent>,
    before: Readings,
) -> Readings
    decreases events.len(),
{
    if events.len() == 0 {
        before
    } else {
        run(state, events.drop_last()).readings(
            events.last(),
            run_readings(state, events.drop_last(), before),
        )
    }
}

/// Whether each of the events answers what the session asked for.
pub open spec fn answers(state: ClientState, events: Seq<ClientEvent>) -> bool
    decreases events.len(),
{
    events.len() > 0 ==> answers(state, events.drop_last()) && run(
        state,
        events.drop_last(),
    ).expects(events.last())
}

/// How many of the events are the given one.
pub open spec fn tally(events: Seq<ClientEvent>, event: ClientEvent) -> nat
    decreases events.len(),
{
    if events.len() == 0 {
        0
    } else {
        tally(events.drop_last(), event) + if events.last() == event {
            1nat
        } else {
            0nat
        }
    }
}

/// How many echoes were missed since the last one came.
pub open spec fn silent_run(events: Seq<ClientEvent>) -> nat
    decreases events.len(),
{
    if events.len() == 0 || events.last() is EchoReceived {
        0
    } else {
        silent_run(events.drop_last()) + if events.last() is EchoTimedOut {
            1nat
        } else {
            0nat
        }
    }
}

/// The counters after one was added up `n` times.
pub open spec fn bumped_times(counts: Counts, labels: Labels, n: nat) -> Counts
    decreases n,
{
    if n == 0 {
        counts
    } else {
        bumped(bumped_times(counts, labels, (n - 1) as nat), labels)
    }
}

/// The number of consecutive misses that ends a session: at least one, however
/// low the limit.
pub open spec fn last_miss(max_misses: nat) -> nat {
    if max_misses == 0 {
        1
    } else {
        max_misses
    }
}

/// One event keeps what holds of a session at all times.
pub proof fn law_step_keeps_wf(state: ClientState, event: ClientEvent)
    requires
        state.wf(),
        state.expects(event),
    ensures
        state.after(event).wf(),
{
    assert(state.interval * state.seq + state.interval == state.interval * (state.seq + 1))
        by (nonlinear_arith);
}

/// What holds of a session at all times holds after any events.
pub proof fn law_run_keeps_wf(state: ClientState, events: Seq<ClientEvent>)
    requires
        state.wf(),
        answers(state, events),
    ensures
        run(state, events).wf(),
    decreases events.len(),
{
    if events.len() > 0 {
        law_run_keeps_wf(state, events.drop_last());
        law_step_keeps_wf(run(state, events.drop_last()), events.last());
    }
}

/// Nothing that happens changes who the session is between and what its limits
/// are.
pub proof fn law_run_keeps_identity(state: ClientState, events: Seq<ClientEvent>)
    ensures
        run(state, events).node == state.node,
        run(state, events).peer == state.peer,
        run(state, events).interval == state.interval,
        run(state, events).max_misses == state.max_misses,
    decreases events.len(),
{
    if events.len() > 0 {
        law_run_keeps_identity(state, events.drop_last());
    }
}

/// Heartbeats are numbered from zero without a gap, and each is sent as many
/// intervals after the start of the session as its number says.
pub proof fn law_heartbeats_numbered_and_timed(
    node: Seq<char>,
    peer: Seq<char>,
    interval: nat,
    max_misses: nat,
    events: Seq<ClientEvent>,
)
    requires
        answers(ClientState::fresh(node, peer, interval, max_misses), events),
    ensures
        ({
            let state = run(ClientState::fresh(node, peer, interval, max_misses), events);
            &&& state.seq == tally(events, ClientEvent::Sent)
            &&& state.stage is Waiting ==> state.next_send == interval * tally(
                events,
                ClientEvent::Sent,
            ) && state.action(ClientEvent::Woken) == ClientAction::Send(
                tally(events, ClientEvent::Sent) as u64,
            )
        }),
    decreases events.len(),
{
    let fresh = ClientState::fresh(node, peer, interval, max_misses);
    assert(interval * 0 == 0) by (nonlinear_arith);
    assert(fresh.wf());
    law_run_keeps_wf(fresh, events);
    law_run_keeps_identity(fresh, events);
    if events.len() > 0 {
        law_heartbeats_numbered_and_timed(
            node,
            peer,
            interval,
            max_misses,
            events.drop_last(),
        );
    }
}

/// The run of misses that a session counts is the number of echoes missed
/// since the last one came.
pub proof fn law_misses_counted(state: ClientState, events: Seq<ClientEvent>)
    requires
        state.missed == 0,
    ensures
        run(state, events).missed == silent_run(events),
    decreases events.len(),
{
    if events.len() > 0 {
        law_misses_counted(state, events.drop_last());
    }
}

/// A session times out with the miss that makes the run of misses as long as
/// the limit says, and neither earlier nor later: of a session that goes on,
/// one more miss ends it exactly if it is that one.
pub proof fn law_timeout_exactly_at_limit(
    node: Seq<char>,
    peer: Seq<char>,
    interval: nat,
    max_misses: nat,
    events: Seq<ClientEvent>,
)
    requires
        answers(ClientState::fresh(node, peer, interval, max_misses), events),
        run(ClientState::fresh(node, peer, interval, max_misses), events).stage is AwaitingEcho,
    ensures
        ({
            let state = run(ClientState::fresh(node, peer, interval, max_misses), events);
            let misses = silent_run(events.push(ClientEvent::EchoTimedOut));
            &&& misses <= last_miss(max_misses)
            &&& state.end(ClientEvent::EchoTimedOut) == if misses == last_miss(max_misses) {
                Some(SessionEnd::Lost(DisconnectReason::Timeout))
            } else {
                None
            }
        }),
{
    let fresh = ClientState::fresh(node, peer, interval, max_misses);
    assert(interval * 0 == 0) by (nonlinear_arith);
    assert(fresh.wf());
    law_run_keeps_wf(fresh, events);
    law_run_keeps_identity(fresh, events);
    law_misses_counted(fresh, events);
    assert(events.push(ClientEvent::EchoTimedOut).drop_last() =~= events);
}

/// A timeout comes of a missed echo and of nothing else.
pub proof fn law_timeout_only_by_miss(state: ClientState, event: ClientEvent)
    ensures
        state.end(event) == Some(SessionEnd::Lost(DisconnectReason::Timeout)) ==> event
            is EchoTimedOut,
{
}

/// The events of a peer that is silent for `n` heartbeats.
pub open spec fn silence(n: nat) -> Seq<ClientEvent>
    decreases n,
{
    if n == 0 {
        Seq::empty()
    } else {
        silence((n - 1) as nat).push(ClientEvent::Woken).push(ClientEvent::Sent).push(
            ClientEvent::EchoTimedOut,
        )
    }
}

/// A peer that answered the last heartbeat and is silent from then on loses the
/// session after as many heartbeats as the limit says, as a timeout, and that
/// many intervals later.
pub proof fn law_silence_times_out(state: ClientState, n: nat)
    requires
        state.wf(),
        state.stage is Waiting,
        state.missed == 0,
        n <= last_miss(state.max_misses),
    ensures
        answers(state, silence(n)),
        run(state, silence(n)).missed == n,
        run(state, silence(n)).seq == state.seq + n,
        run(state, silence(n)).next_send == state.next_send + n * state.interval,
        run(state, silence(n)).stage == if n == last_miss(state.max_misses) {
            ClientStage::Ended
        } else {
            ClientStage::Waiting
        },
    decreases n,
{
    if n > 0 {
        let m = (n - 1) as nat;
        law_silence_times_out(state, m);
        let before = silence(m);
        let woken = before.push(ClientEvent::Woken);
        let sent = woken.push(ClientEvent::Sent);
        let all = sent.push(ClientEvent::EchoTimedOut);
        assert(woken.drop_last() =~= before);
        assert(sent.drop_last() =~= woken);
        assert(all.drop_last() =~= sent);
        law_run_keeps_identity(state, before);
        assert(all == silence(n));
        assert(m * state.interval + state.interval == n * state.interval) by (nonlinear_arith)
            requires
                n == m + 1,
        ;
        assert(run(state, woken) == run(state, before).after(ClientEvent::Woken));
        assert(run(state, sent) == run(state, woken).after(ClientEvent::Sent));
        assert(run(state, all) == run(state, sent).after(ClientEvent::EchoTimedOut));
        assert(answers(state, woken));
        assert(answers(state, sent));
        assert(answers(state, all));
    } else {
        assert(0 * state.interval == 0) by (nonlinear_arith);
    }
}

/// While a session is established its active gauge shows 1, and its gauge of
/// consecutive misses shows the misses since the last echo; once it is over,
/// the active gauge shows 0, and the other one what it showed last.
pub proof fn law_gauges_show_the_session(
    node: Seq<char>,
    peer: Seq<char>,
    interval: nat,
    max_misses: nat,
    events: Seq<ClientEvent>,
    before: Readings,
)
    requires
        max_misses <= u32::MAX,
        answers(ClientState::fresh(node, peer, interval, max_misses), events),
    ensures
        ({
            let fresh = ClientState::fresh(node, peer, interval, max_misses);
            let stage = run(fresh, events).stage;
            let now = run_readings(fresh, events, before);
            let labels = peer_labels(node, peer);
            &&& live(stage) ==> {
                &&& now.cli_session_active.contains_key(labels)
                &&& now.cli_session_active[labels] == 1
                &&& now.cli_consecutive_missed.contains_key(labels)
                &&& now.cli_consecutive_missed[labels] == silent_run(events)
            }
            &&& stage is Ended && tally(events, ClientEvent::GreetingSent) > 0 ==> {
                &&& now.cli_session_active.contains_key(labels)
                &&& now.cli_session_active[labels] == 0
                &&& now.cli_consecutive_missed.contains_key(labels)
                &&& now.cli_consecutive_missed[labels] == silent_run(events)
            }
            &&& tally(events, ClientEvent::GreetingSent) == 0 ==> now == before && !live(stage)
        }),
    decreases events.len(),
{
    let fresh = ClientState::fresh(node, peer, interval, max_misses);
    assert(interval * 0 == 0) by (nonlinear_arith);
    assert(fresh.wf());
    law_run_keeps_wf(fresh, events);
    law_run_keeps_identity(fresh, events);
    law_misses_counted(fresh, events);
    if events.len() > 0 {
        law_gauges_show_the_session(
            node,
            peer,
            interval,
            max_misses,
            events.drop_last(),
            before,
        );
        law_run_keeps_wf(fresh, events.drop_last());
        law_run_keeps_identity(fresh, events.drop_last());
        law_misses_counted(fresh, events.drop_last());
        let earlier = events.drop_last();
        if earlier.len() > 0 {
            assert(run(fresh, earlier) == run(fresh, earlier.drop_last()).after(earlier.last()));
            assert(live(run(fresh, earlier).stage));
        } else {
            assert(tally(earlier, ClientEvent::GreetingSent) == 0);
            assert(run(fresh, earlier) == fresh);
            assert(run_readings(fresh, earlier, before) == before);
        }
        assert(run_readings(fresh, events, before) == run(fresh, earlier).readings(
            events.last(),
            run_readings(fresh, earlier, before),
        ));
        let now = run_readings(fresh, events, before);
        let labels = peer_labels(node, peer);
        if run(fresh, events).stage is Ended && earlier.len() > 0 {
            assert(now.cli_session_active.contains_key(labels));
            assert(now.cli_session_active[labels] == 0);
        }
        if tally(events, ClientEvent::GreetingSent) == 0 {
            assert(now == before);
        }
    }
}

/// The counters of a session count what they are named for: sessions
/// established, heartbeats sent, echoes received and echoes missed.
pub proof fn law_counters_count_events(
    state: ClientState,
    events: Seq<ClientEvent>,
    before: Readings,
)
    ensures
        ({
            let now = run_readings(state, events, before);
            let labels = peer_labels(state.node, state.peer);
            &&& now.cli_sessions_total == bumped_times(
                before.cli_sessions_total,
                labels,
                tally(events, ClientEvent::GreetingSent),
            )
            &&& now.cli_heartbeats_sent == bumped_times(
                before.cli_heartbeats_sent,
                labels,
                tally(events, ClientEvent::Sent),
            )
            &&& now.cli_heartbeats_rx == bumped_times(
                before.cli_heartbeats_rx,
                labels,
                tally(events, ClientEvent::EchoReceived),
            )
            &&& now.cli_heartbeats_missed == bumped_times(
                before.cli_heartbeats_missed,
                labels,
                tally(events, ClientEvent::EchoTimedOut),
            )
        }),
    decreases events.len(),
{
    if events.len() > 0 {
        law_counters_count_events(state, events.drop_last(), before);
        law_run_keeps_identity(state, events.drop_last());
    }
}

/// A counter that was added up `n` times stands `n` higher, as long as it does
/// not reach its end.
pub proof fn law_counter_value(counts: Counts, labels: Labels, n: nat)
    requires
        n > 0,
        (if counts.contains_key(labels) {
            counts[labels] as nat
        } else {
            0
        }) + n <= u64::MAX,
    ensures
        bumped_times(counts, labels, n).contains_key(labels),
        bumped_times(counts, labels, n)[labels] == n + if counts.contains_key(labels) {
            counts[labels] as nat
        } else {
            0
        },
    decreases n,
{
    if n > 1 {
        law_counter_value(counts, labels, (n - 1) as nat);
    } else {
        assert(bumped_times(counts, labels, 0) == counts);
    }
}

/// Every heartbeat that was sent is echoed or missed before the next is sent,
/// unless the session ends first.
pub proof fn law_heartbeats_accounted_for(
    node: Seq<char>,
    peer: Seq<char>,
    interval: nat,
    max_misses: nat,
    events: Seq<ClientEvent>,
)
    requires
        answers(ClientState::fresh(node, peer, interval, max_misses), events),
    ensures
        ({
            let stage = run(ClientState::fresh(node, peer, interval, max_misses), events).stage;
            let sent = tally(events, ClientEvent::Sent);
            let settled = tally(events, ClientEvent::EchoReceived) + tally(
                events,
                ClientEvent::EchoTimedOut,
            );
            &&& stage is AwaitingEcho ==> sent == settled + 1
            &&& stage is Waiting || stage is Sending || stage is Greeting ==> sent == settled
            &&& settled <= sent <= settled + 1
            &&& tally(events, ClientEvent::GreetingSent) == if stage is Greeting || (
            events.len() == 1 && stage is Ended) {
                0nat
            } else {
                1nat
            }
        }),
    decreases events.len(),
{
    if events.len() > 0 {
        law_heartbeats_accounted_for(node, peer, interval, max_misses, events.drop_last());
        if events.len() > 1 {
            let fresh = ClientState::fresh(node, peer, interval, max_misses);
            let earlier = events.drop_last();
            assert(run(fresh, earlier) == run(fresh, earlier.drop_last()).after(earlier.last()));
        }
    }
}

/// A session that was established is counted once under the reason for which it
/// was lost, when it is lost; one that was asked to stop is not counted, nor
/// one that was never established.
pub proof fn law_disconnects_counted_once(
    state: ClientState,
    events: Seq<ClientEvent>,
    before: Readings,
)
    requires
        !(state.stage is Ended),
        answers(state, events),
    ensures
        ({
            let now = run_readings(state, events, before);
            if run(state, events).stage is Ended {
                let last = run(state, events.drop_last());
                match last.end(events.last()) {
                    Some(SessionEnd::Lost(reason)) => now.cli_disconnects == if live(last.stage) {
                        bumped(
                            before.cli_disconnects,
                            disconnect_labels(state.node, state.peer, reason),
                        )
                    } else {
                        before.cli_disconnects
                    },
                    _ => now.cli_disconnects == before.cli_disconnects,
                }
            } else {
                now.cli_disconnects == before.cli_disconnects
            }
        }),
    decreases events.len(),
{
    if events.len() > 0 {
        law_disconnects_counted_once(state, events.drop_last(), before);
        law_run_keeps_identity(state, events.drop_last());
        assert(!(run(state, events.drop_last()).stage is Ended));
    }
}

/// An outbound session changes no metric of inbound ones, and of the outbound
/// ones only those of its own peer.
pub proof fn law_session_keeps_to_its_peer(
    state: ClientState,
    event: ClientEvent,
    before: Readings,
    node: Seq<char>,
    peer: Seq<char>,
    reason: DisconnectReason,
)
    requires
        node != state.node || peer != state.peer,
    ensures
        ({
            let now = state.readings(event, before);
            let labels = peer_labels(node, peer);
            let ends = disconnect_labels(node, peer, reason);
            &&& now.srv_session_active == before.srv_session_active
            &&& now.srv_sessions_total == before.srv_sessions_total
            &&& now.srv_heartbeats_rx == before.srv_heartbeats_rx
            &&& now.srv_disconnects == before.srv_disconnects
            &&& now.srv_open == before.srv_open
            &&& now.handles == before.handles
            &&& now.registered == before.registered
            &&& now.cli_session_active.contains_key(labels)
                == before.cli_session_active.contains_key(labels)
            &&& now.cli_session_active[labels] == before.cli_session_active[labels]
            &&& now.cli_consecutive_missed.contains_key(labels)
                == before.cli_consecutive_missed.contains_key(labels)
            &&& now.cli_consecutive_missed[labels] == before.cli_consecutive_missed[labels]
            &&& now.cli_sessions_total.contains_key(labels)
                == before.cli_sessions_total.contains_key(labels)
            &&& now.cli_sessions_total[labels] == before.cli_sessions_total[labels]
            &&& now.cli_heartbeats_sent.contains_key(labels)
                == before.cli_heartbeats_sent.contains_key(labels)
            &&& now.cli_heartbeats_sent[labels] == before.cli_heartbeats_sent[labels]
            &&& now.cli_heartbeats_rx.contains_key(labels)
                == before.cli_heartbeats_rx.contains_key(labels)
            &&& now.cli_heartbeats_rx[labels] == before.cli_heartbeats_rx[labels]
            &&& now.cli_heartbeats_missed.contains_key(labels)
                == before.cli_heartbeats_missed.contains_key(labels)
            &&& now.cli_heartbeats_missed[labels] == before.cli_heartbeats_missed[labels]
            &&& now.cli_disconnects.contains_key(ends)
                == before.cli_disconnects.contains_key(ends)
            &&& now.cli_disconnects[ends] == before.cli_disconnects[ends]
        }),
{
    law_peer_labels_told_apart(node, peer, state.node, state.peer);
    if let Some(SessionEnd::Lost(own)) = state.end(event) {
        law_disconnect_labels_told_apart(node, peer, reason, state.node, state.peer, own);
    }
}

/// Whatever an outbound session is counted under when it is lost has its
/// counter from the start, and is not a failed connect.
pub proof fn law_lost_for_a_known_reason(state: ClientState, event: ClientEvent)
    ensures
        state.end(event) matches Some(SessionEnd::Lost(reason)) ==> client_reasons().contains(
            reason,
        ) && reason != DisconnectReason::ConnectFailed,
{
    assert(client_reasons()[0] == DisconnectReason::RemoteClose);
    assert(client_reasons()[1] == DisconnectReason::ConnectionReset);
    assert(client_reasons()[2] == DisconnectReason::Timeout);
    assert(client_reasons()[3] == DisconnectReason::LocalError);
}

/// A close by the remote side, a reset and an error on this host are told
/// apart.
pub proof fn law_failures_told_apart(kind: IoErrorKind)
    ensures
        client_reason(kind) == DisconnectReason::ConnectionReset <==> kind
            == IoErrorKind::ConnectionReset,
        client_reason(kind) == DisconnectReason::RemoteClose <==> kind
            == IoErrorKind::UnexpectedEof || kind == IoErrorKind::BrokenPipe,
        client_reason(kind) == DisconnectReason::LocalError <==> kind == IoErrorKind::Other,
{
}

/// The loop goes on connecting until it is asked to stop: after every lost
/// session and every failed attempt it rests for the configured delay, and
/// after every rest it connects to the peer's address again.
pub proof fn law_loop_reconnects(state: PeerState, event: PeerEvent)
    requires
        state.expects(event),
    ensures
        state.after(event).stage is Stopped <==> event is Cancelled || event
            == PeerEvent::SessionEnded(SessionEnd::Cancelled),
        event is ConnectFailed ==> state.after(event).request() == PeerRequest::Rest(
            state.reconnect_delay,
        ),
        event matches PeerEvent::SessionEnded(SessionEnd::Lost(_)) ==> state.after(event).request()
            == PeerRequest::Rest(state.reconnect_delay),
        event is Rested ==> state.after(event).request() == PeerRequest::Connect(
            address(state.host, state.port),
        ),
        state.after(event).node == state.node,
        state.after(event).peer == state.peer,
        state.after(event).host == state.host,
        state.after(event).port == state.port,
        state.after(event).reconnect_delay == state.reconnect_delay,
{
}

/// A stopped loop takes no further event.
pub proof fn law_stopped_loop_stays_stopped(state: PeerState, event: PeerEvent)
    requires
        state.stage == PeerStage::Stopped,
    ensures
        !state.expects(event),
{
}

/// The state of the loop after a number of events.
pub open spec fn loop_run(state: PeerState, events: Seq<PeerEvent>) -> PeerState
    decreases events.len(),
{
    if events.len() == 0 {
        state
    } else {
        loop_run(state, events.drop_last()).after(events.last())
    }
}

/// What the metrics show after a number of events of the loop.
pub open spec fn loop_readings(
    state: PeerState,
    events: Seq<PeerEvent>,
    before: Readings,
) -> Readings
    decreases events.len(),
{
    if events.len() == 0 {
        before
    } else {
        loop_run(state, events.drop_last()).readings(
            events.last(),
            loop_readings(state, events.drop_last(), before),
        )
    }
}

/// How many attempts to connect failed.
pub open spec fn failed_connects(events: Seq<PeerEvent>) -> nat
    decreases events.len(),
{
    if events.len() == 0 {
        0
    } else {
        failed_connects(events.drop_last()) + if events.last() is ConnectFailed {
            1nat
        } else {
            0nat
        }
    }
}

/// Every failed attempt to connect is counted as such, and the loop counts
/// nothing else.
pub proof fn law_failed_connects_counted(
    state: PeerState,
    events: Seq<PeerEvent>,
    before: Readings,
)
    ensures
        loop_readings(state, events, before) == (Readings {
            cli_disconnects: bumped_times(
                before.cli_disconnects,
                disconnect_labels(state.node, state.peer, DisconnectReason::ConnectFailed),
                failed_connects(events),
            ),
            ..before
        }),
        loop_run(state, events).node == state.node,
        loop_run(state, events).peer == state.peer,
    decreases events.len(),
{
    if events.len() > 0 {
        law_failed_connects_counted(state, events.drop_last(), before);
    }
}

/// A new session is with the peer and under the node name that it was made for,
/// has the limits that it was made with, and has done nothing yet.
pub proof fn law_new_session_as_configured(
    node: Seq<char>,
    peer: Seq<char>,
    interval: nat,
    max_misses: nat,
)
    ensures
        ({
            let fresh = ClientState::fresh(node, peer, interval, max_misses);
            &&& fresh.node == node
            &&& fresh.peer == peer
            &&& fresh.interval == interval
            &&& fresh.max_misses == max_misses
            &&& fresh.seq == 0
            &&& fresh.missed == 0
            &&& fresh.next_send == 0
            &&& fresh.stage == ClientStage::Greeting
            &&& fresh.wf()
        }),
{
    assert(interval * 0 == 0) by (nonlinear_arith);
}

/// A session ends by a failed send or receive, by the miss that reaches the
/// limit, or by cancellation, and by nothing else: a greeting that was sent, a
/// heartbeat that is due or was sent, and an echo that came never end it. A
/// failure ends it for the reason that its kind gives.
pub proof fn law_session_ends_only_by_loss_or_cancellation(
    state: ClientState,
    event: ClientEvent,
    kind: IoErrorKind,
)
    ensures
        event is GreetingSent || event is Woken || event is Sent || event is EchoReceived ==> {
            &&& state.end(event) is None
            &&& !(state.after(event).stage is Ended)
            &&& !(state.action(event) is End)
        },
        event is EchoTimedOut && state.missed + 1 < state.max_misses ==> {
            &&& state.end(event) is None
            &&& !(state.after(event).stage is Ended)
            &&& !(state.action(event) is End)
        },
        event is EchoTimedOut && state.missed + 1 >= state.max_misses ==> state.end(event) == Some(
            SessionEnd::Lost(DisconnectReason::Timeout),
        ),
        event is GreetingFailed ==> state.end(event) == Some(
            SessionEnd::Lost(DisconnectReason::LocalError),
        ),
        event is Cancelled ==> state.end(event) == Some(SessionEnd::Cancelled),
        event == ClientEvent::SendFailed(kind) || event == ClientEvent::EchoFailed(kind)
            ==> state.end(event) == Some(
            SessionEnd::Lost(
                if kind == IoErrorKind::ConnectionReset {
                    DisconnectReason::ConnectionReset
                } else if kind == IoErrorKind::Other {
                    DisconnectReason::LocalError
                } else {
                    DisconnectReason::RemoteClose
                },
            ),
        ),
        state.end(event) matches Some(end) ==> {
            &&& state.after(event).stage is Ended
            &&& state.action(event) == ClientAction::End(end)
        },
{
}

/// A session expects exactly what can come of what it is doing; cancellation it
/// expects as long as it is established.
pub proof fn law_session_expects_what_it_asked_for(state: ClientState, kind: IoErrorKind)
    ensures
        state.expects(ClientEvent::GreetingSent) <==> state.stage == ClientStage::Greeting,
        state.expects(ClientEvent::GreetingFailed) <==> state.stage == ClientStage::Greeting,
        state.expects(ClientEvent::Woken) <==> state.stage == ClientStage::Waiting,
        state.expects(ClientEvent::Sent) <==> state.stage == ClientStage::Sending,
        state.expects(ClientEvent::SendFailed(kind)) <==> state.stage == ClientStage::Sending,
        state.expects(ClientEvent::EchoReceived) <==> state.stage == ClientStage::AwaitingEcho,
        state.expects(ClientEvent::EchoTimedOut) <==> state.stage == ClientStage::AwaitingEcho,
        state.expects(ClientEvent::EchoFailed(kind)) <==> state.stage == ClientStage::AwaitingEcho,
        state.expects(ClientEvent::Cancelled) <==> state.stage == ClientStage::Waiting
            || state.stage == ClientStage::Sending || state.stage == ClientStage::AwaitingEcho,
        live(state.stage) <==> state.stage == ClientStage::Waiting || state.stage
            == ClientStage::Sending || state.stage == ClientStage::AwaitingEcho,
{
}

/// Whatever a session expects it can take, unless the next heartbeat would be
/// due later than can be said, or no number is left for it.
pub proof fn law_session_takes_what_it_expects(state: ClientState, event: ClientEvent)
    requires
        state.seq <= u64::MAX,
        state.next_send <= u64::MAX,
    ensures
        state.accepts(event) <==> {
            &&& state.expects(event)
            &&& event is Sent ==> state.seq < u64::MAX
            &&& event is Woken ==> state.next_send + state.interval <= u64::MAX
        },
{
}

/// A session that goes on greets, then waits, sends and awaits the echo in turn,
/// and asks for what the next step needs: to wait until as many intervals after
/// the start as heartbeats were sent, to send the heartbeat with that number, to
/// await the echo for one interval.
pub proof fn law_session_steps_in_turn(state: ClientState, event: ClientEvent)
    requires
        state.wf(),
        state.accepts(event),
        state.interval <= u64::MAX,
        state.seq <= u64::MAX,
        state.end(event) is None,
    ensures
        event is GreetingSent || event is EchoReceived || event is EchoTimedOut ==> {
            &&& state.after(event).stage == ClientStage::Waiting
            &&& state.action(event) matches ClientAction::WaitUntil(seconds) && seconds
                == state.interval * state.seq
            &&& state.after(event).seq == state.seq
        },
        event is Woken ==> {
            &&& state.after(event).stage == ClientStage::Sending
            &&& state.action(event) matches ClientAction::Send(number) && number == state.seq
            &&& state.after(event).seq == state.seq
        },
        event is Sent ==> {
            &&& state.after(event).stage == ClientStage::AwaitingEcho
            &&& state.action(event) matches ClientAction::AwaitEcho(seconds) && seconds
                == state.interval
            &&& state.after(event).seq == state.seq + 1
        },
        event is EchoReceived ==> state.after(event).missed == 0,
        event is EchoTimedOut ==> state.after(event).missed == state.missed + 1,
        !(event is EchoReceived) && !(event is EchoTimedOut) ==> state.after(event).missed
            == state.missed,
{
}

/// The events of a peer that answers `n` heartbeats.
pub open spec fn answered(n: nat) -> Seq<ClientEvent>
    decreases n,
{
    if n == 0 {
        Seq::empty()
    } else {
        answered((n - 1) as nat).push(ClientEvent::Woken).push(ClientEvent::Sent).push(
            ClientEvent::EchoReceived,
        )
    }
}

/// A session with a peer that answers every heartbeat goes on, however many:
/// it is waiting for the next one, due as many intervals later, has missed none
/// and has counted no disconnect.
pub proof fn law_answered_session_goes_on(state: ClientState, n: nat, before: Readings)
    requires
        state.wf(),
        state.stage is Waiting,
    ensures
        answers(state, answered(n)),
        run(state, answered(n)).stage == ClientStage::Waiting,
        run(state, answered(n)).seq == state.seq + n,
        run(state, answered(n)).next_send == state.interval * (state.seq + n),
        n > 0 ==> run(state, answered(n)).missed == 0,
        run_readings(state, answered(n), before).cli_disconnects == before.cli_disconnects,
        run_readings(state, answered(n), before).cli_session_active == before.cli_session_active,
    decreases n,
{
    if n > 0 {
        let m = (n - 1) as nat;
        law_answered_session_goes_on(state, m, before);
        let start = answered(m);
        let woken = start.push(ClientEvent::Woken);
        let sent = woken.push(ClientEvent::Sent);
        let all = sent.push(ClientEvent::EchoReceived);
        assert(woken.drop_last() =~= start);
        assert(sent.drop_last() =~= woken);
        assert(all.drop_last() =~= sent);
        assert(all == answered(n));
        law_run_keeps_identity(state, start);
        assert(state.interval * (state.seq + m) + state.interval == state.interval * (state.seq
            + n)) by (nonlinear_arith)
            requires
                n == m + 1,
        ;
        assert(run(state, woken) == run(state, start).after(ClientEvent::Woken));
        assert(run(state, sent) == run(state, woken).after(ClientEvent::Sent));
        assert(run(state, all) == run(state, sent).after(ClientEvent::EchoReceived));
        assert(answers(state, woken));
        assert(answers(state, sent));
        assert(answers(state, all));
        let r0 = run_readings(state, start, before);
        let r1 = run_readings(state, woken, before);
        let r2 = run_readings(state, sent, before);
        let r3 = run_readings(state, all, before);
        assert(r1 == run(state, start).readings(ClientEvent::Woken, r0));
        assert(r2 == run(state, woken).readings(ClientEvent::Sent, r1));
        assert(r3 == run(state, sent).readings(ClientEvent::EchoReceived, r2));
    }
}

/// A loop that is connected runs a session and expects its end, whatever its
/// settings. It rests only after a failed attempt or a lost session, for the
/// configured delay; it connects only after a rest, to the peer's host and port;
/// it stops only when it or its session was asked to.
pub proof fn law_loop_runs_a_session_when_connected(
    state: PeerState,
    event: PeerEvent,
    end: SessionEnd,
)
    requires
        state.expects(event),
    ensures
        event is Connected ==> {
            &&& state.after(event).stage == PeerStage::InSession
            &&& state.after(event).request() == PeerRequest::RunSession
            &&& state.after(event).expects(PeerEvent::SessionEnded(end))
        },
        state.after(event).request() is RunSession ==> event is Connected,
        state.after(event).request() is Rest <==> event is ConnectFailed || event matches
            PeerEvent::SessionEnded(SessionEnd::Lost(_)),
        state.after(event).request() matches PeerRequest::Rest(seconds) ==> seconds
            == state.reconnect_delay,
        state.after(event).request() is Connect <==> event is Rested,
        state.after(event).request() matches PeerRequest::Connect(to) ==> to == state.host
            + seq![':'] + decimal(state.port as nat),
        state.after(event).request() is Stop <==> event is Cancelled || event
            == PeerEvent::SessionEnded(SessionEnd::Cancelled),
{
    reveal_strlit(":");
    assert(":"@ =~= seq![':']);
}

/// A loop expects exactly what can come of what it is doing.
pub proof fn law_loop_expects_what_it_asked_for(state: PeerState, end: SessionEnd)
    ensures
        state.expects(PeerEvent::Connected) <==> state.stage == PeerStage::Connecting,
        state.expects(PeerEvent::ConnectFailed) <==> state.stage == PeerStage::Connecting,
        state.expects(PeerEvent::SessionEnded(end)) <==> state.stage == PeerStage::InSession,
        state.expects(PeerEvent::Rested) <==> state.stage == PeerStage::Resting,
        state.expects(PeerEvent::Cancelled) <==> state.stage == PeerStage::Connecting
            || state.stage == PeerStage::Resting,
        state.request() is Connect <==> state.stage == PeerStage::Connecting,
        state.request() is RunSession <==> state.stage == PeerStage::InSession,
        state.request() is Rest <==> state.stage == PeerStage::Resting,
        state.request() is Stop <==> state.stage == PeerStage::Stopped,
{
}

/// What a loop is told to do is what it asks for, number for number and
/// character for character.
pub proof fn law_loop_actions_as_asked(action: PeerAction)
    ensures
        action matches PeerAction::Connect(to) ==> action@ == PeerRequest::Connect(to@),
        action is RunSession <==> action@ == PeerRequest::RunSession,
        action matches PeerAction::Rest(seconds) ==> action@ == PeerRequest::Rest(seconds),
        action is Stop <==> action@ == PeerRequest::Stop,
        action is Connect <==> action@ is Connect,
        action is Rest <==> action@ is Rest,
{
}

} // verus!
