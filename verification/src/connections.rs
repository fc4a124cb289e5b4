//! Inbound connections: how many are served at a time, and what becomes of each
//! attempt to accept one.

use tokio::sync::Semaphore;
use vstd::prelude::*;

verus! {

/// The largest number of inbound connections that are served at a time, on the
/// heartbeat port and the probe port together.
pub const MAX_CONNECTIONS: usize = 128;

/// Seconds to wait after a connection could not be accepted.
pub const ACCEPT_PAUSE: u64 = 1;

/// How a dead connection is found out by the operating system.
#[derive(Clone, Copy, Debug, PartialEq, Eq, Structural)]
pub struct Keepalive {
    /// Seconds without traffic before the first probe.
    pub idle: u64,
    /// Seconds between two probes.
    pub interval: u64,
    /// Unanswered probes that end the connection.
    pub probes: u32,
}

/// The keepalive settings of every heartbeat connection.
pub fn keepalive() -> (settings: Keepalive)
    ensures
        settings == (Keepalive { idle: 60, interval: 10, probes: 6 }),
{
    Keepalive { idle: 60, interval: 10, probes: 6 }
}

/// The counting semaphore of `tokio`.
#[verifier::external_type_specification]
#[verifier::external_body]
pub struct ExSemaphore(tokio::sync::Semaphore);

/// The permits that a semaphore has to give; none is said of a closed one.
pub uninterp spec fn permits(semaphore: Semaphore) -> Option<nat>;

/// `Semaphore::new` makes an open semaphore with the given number of permits.
/// It panics on more than an eighth of what a `usize` can hold.
#[verifier::external_body]
fn semaphore_of(n: usize) -> (semaphore: Semaphore)
    requires
        n <= usize::MAX / 8,
    ensures
        permits(semaphore) == Some(n as nat),
{
    Semaphore::new(n)
}

/// `Semaphore::try_acquire` takes a permit of an open semaphore if there is
/// one, and fails otherwise. With `SemaphorePermit::forget` it is not given
/// back when the permit goes out of scope.
#[verifier::external_body]
fn take_permit(semaphore: &mut Semaphore) -> (taken: bool)
    requires
        permits(*old(semaphore)) is Some,
    ensures
        taken == (permits(*old(semaphore))->0 > 0),
        permits(*final(semaphore)) == if taken {
            Some((permits(*old(semaphore))->0 - 1) as nat)
        } else {
            permits(*old(semaphore))
        },
{
    match semaphore.try_acquire() {
        Ok(permit) => {
            permit.forget();
            true
        },
        Err(_) => false,
    }
}

/// `Semaphore::add_permits` adds a permit. It panics where that makes more than
/// an eighth of what a `usize` can hold.
#[verifier::external_body]
fn add_permit(semaphore: &mut Semaphore)
    requires
        permits(*old(semaphore)) is Some,
        permits(*old(semaphore))->0 < usize::MAX / 8,
    ensures
        permits(*final(semaphore)) == Some(permits(*old(semaphore))->0 + 1),
{
    semaphore.add_permits(1);
}

/// What came of waiting for a connection.
#[derive(Clone, Copy, Debug, PartialEq, Eq, Structural)]
pub enum AcceptEvent {
    /// A connection came.
    Accepted,
    /// Accepting failed.
    Failed,
    /// The server is to stop.
    Cancelled,
}

/// What to do then.
#[derive(Clone, Copy, Debug, PartialEq, Eq, Structural)]
pub enum AcceptAction {
    /// Serve the connection.
    Serve,
    /// Drop the connection: too many are being served.
    Refuse,
    /// Wait for so many seconds.
    Pause(u64),
    /// Accept no more.
    Stop,
}

/// What is done, given how many connections are being served.
pub open spec fn accept_action(active: nat, event: AcceptEvent) -> AcceptAction {
    match event {
        AcceptEvent::Accepted => if active < MAX_CONNECTIONS {
            AcceptAction::Serve
        } else {
            AcceptAction::Refuse
        },
        AcceptEvent::Failed => AcceptAction::Pause(ACCEPT_PAUSE),
        AcceptEvent::Cancelled => AcceptAction::Stop,
    }
}

/// How many connections are being served afterwards.
pub open spec fn accepted(active: nat, event: AcceptEvent) -> nat {
    if accept_action(active, event) is Serve {
        active + 1
    } else {
        active
    }
}

/// The inbound connections that are being served.
pub struct Connections {
    semaphore: Semaphore,
    active: usize,
}

impl View for Connections {
    type V = nat;

    closed spec fn view(&self) -> nat {
        self.active as nat
    }
}

impl Connections {
    /// What is being served and what the semaphore still has to give make up
    /// the limit.
    pub closed spec fn wf(self) -> bool {
        &&& self.active <= MAX_CONNECTIONS
        &&& permits(self.semaphore) == Some((MAX_CONNECTIONS - self.active) as nat)
    }

    /// No connection is being served.
    pub fn new() -> (connections: Connections)
        ensures
            connections.wf(),
            connections@ == 0,
    {
        Connections { semaphore: semaphore_of(MAX_CONNECTIONS), active: 0 }
    }

    /// How many connections are being served.
    pub fn active(&self) -> (n: usize)
        requires
            self.wf(),
        ensures
            n == self@,
            n <= MAX_CONNECTIONS,
    {
        self.active
    }

    /// Decides on what came of waiting for a connection. One that is to be
    /// served counts from now on.
    pub fn step(&mut self, event: AcceptEvent) -> (action: AcceptAction)
        requires
            old(self).wf(),
        ensures
            final(self).wf(),
            action == accept_action(old(self)@, event),
            final(self)@ == accepted(old(self)@, event),
    {
        match event {
            AcceptEvent::Accepted => {
                if take_permit(&mut self.semaphore) {
                    self.active = self.active + 1;
                    AcceptAction::Serve
                } else {
                    AcceptAction::Refuse
                }
            },
            AcceptEvent::Failed => AcceptAction::Pause(ACCEPT_PAUSE),
            AcceptEvent::Cancelled => AcceptAction::Stop,
        }
    }

    /// A connection that was served is closed.
    pub fn release(&mut self)
        requires
            old(self).wf(),
            old(self)@ > 0,
        ensures
            final(self).wf(),
            final(self)@ == old(self)@ - 1,
    {
        add_permit(&mut self.semaphore);
        self.active = self.active - 1;
    }
}

/// What happens to the connections of a server.
#[derive(Clone, Copy, Debug, PartialEq, Eq, Structural)]
pub enum Turn {
    /// Waiting for a connection came to something.
    Event(AcceptEvent),
    /// A connection that was served is closed.
    Closed,
}

/// How many connections are being served after the turns, starting with none.
pub open spec fn active_after(turns: Seq<Turn>) -> nat
    decreases turns.len(),
{
    if turns.len() == 0 {
        0
    } else {
        let before = active_after(turns.drop_last());
        match turns.last() {
            Turn::Event(event) => accepted(before, event),
            Turn::Closed => (before - 1) as nat,
        }
    }
}

/// Whether only connections are closed that are being served.
pub open spec fn sensible(turns: Seq<Turn>) -> bool
    decreases turns.len(),
{
    turns.len() > 0 ==> sensible(turns.drop_last()) && (turns.last() is Closed ==> active_after(
        turns.drop_last(),
    ) > 0)
}

/// How many connections were served.
pub open spec fn served(turns: Seq<Turn>) -> nat
    decreases turns.len(),
{
    if turns.len() == 0 {
        0
    } else {
        served(turns.drop_last()) + match turns.last() {
            Turn::Event(event) => if accept_action(
                active_after(turns.drop_last()),
                event,
            ) is Serve {
                1nat
            } else {
                0nat
            },
            Turn::Closed => 0nat,
        }
    }
}

/// How many connections were closed.
pub open spec fn closed_ones(turns: Seq<Turn>) -> nat
    decreases turns.len(),
{
    if turns.len() == 0 {
        0
    } else {
        closed_ones(turns.drop_last()) + if turns.last() is Closed {
            1nat
        } else {
            0nat
        }
    }
}

/// Whatever happens, no more connections are being served than the limit
/// allows, and those that are being served are those that were and are not
/// closed.
pub proof fn law_connections_are_capped(turns: Seq<Turn>)
    requires
        sensible(turns),
    ensures
        active_after(turns) <= MAX_CONNECTIONS,
        served(turns) == active_after(turns) + closed_ones(turns),
    decreases turns.len(),
{
    if turns.len() > 0 {
        law_connections_are_capped(turns.drop_last());
    }
}

/// A connection is refused only when the limit is reached, and that changes
/// nothing.
pub proof fn law_refused_only_at_the_limit(turns: Seq<Turn>, event: AcceptEvent)
    requires
        sensible(turns),
    ensures
        accept_action(active_after(turns), event) is Refuse <==> event is Accepted && served(turns)
            == MAX_CONNECTIONS + closed_ones(turns),
        !(accept_action(active_after(turns), event) is Serve) ==> accepted(
            active_after(turns),
            event,
        ) == active_after(turns),
{
    law_connections_are_capped(turns);
}

/// Once a connection is closed, the next one is served.
pub proof fn law_closing_makes_room(turns: Seq<Turn>)
    requires
        sensible(turns),
        active_after(turns) > 0,
    ensures
        accept_action(active_after(turns.push(Turn::Closed)), AcceptEvent::Accepted) is Serve,
{
    law_connections_are_capped(turns);
    assert(turns.push(Turn::Closed).drop_last() =~= turns);
}

/// A connection is served as long as fewer than 128 are, and refused otherwise;
/// after a failure there is a pause of one second; when the server is to stop,
/// nothing more is accepted. Only a connection that is served counts.
pub proof fn law_accept_decisions(active: nat)
    ensures
        active < 128 ==> accept_action(active, AcceptEvent::Accepted) == AcceptAction::Serve
            && accepted(active, AcceptEvent::Accepted) == active + 1,
        active >= 128 ==> accept_action(active, AcceptEvent::Accepted) == AcceptAction::Refuse
            && accepted(active, AcceptEvent::Accepted) == active,
        accept_action(active, AcceptEvent::Failed) == AcceptAction::Pause(1),
        accepted(active, AcceptEvent::Failed) == active,
        accept_action(active, AcceptEvent::Cancelled) == AcceptAction::Stop,
        accepted(active, AcceptEvent::Cancelled) == active,
{
}

} // verus!
