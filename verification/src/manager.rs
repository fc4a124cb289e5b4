//! Which peers a node keeps a session loop for, and what a new configuration
//! changes about it.

use crate::config::{name_among, ClientConfig, Config, Peer, PeerConfig};
use vstd::prelude::*;

verus! {

/// Peers by name.
pub type Peers = Map<Seq<char>, Peer>;

/// The entries by name. Where two have the same name, the later one counts.
pub open spec fn peer_map(peers: Seq<PeerConfig>) -> Peers
    decreases peers.len(),
{
    if peers.len() == 0 {
        Map::empty()
    } else {
        peer_map(peers.drop_last()).insert(peers.last().name@, peers.last()@)
    }
}

/// The peers that a configuration wants a session with: none without client
/// settings.
pub open spec fn wanted(config: Config) -> Peers {
    if config.client is Some {
        peer_map(config.peers@)
    } else {
        Map::empty()
    }
}

/// Whether the two maps say the same of a name.
pub open spec fn unchanged(before: Peers, after: Peers, name: Seq<char>) -> bool {
    &&& before.contains_key(name) == after.contains_key(name)
    &&& before.contains_key(name) ==> before[name] == after[name]
}

/// The texts of strings.
pub open spec fn texts(names: Seq<String>) -> Seq<Seq<char>> {
    names.map_values(|name: String| name@)
}

/// What entries say.
pub open spec fn entries(peers: Seq<PeerConfig>) -> Seq<Peer> {
    peers.map_values(|peer: PeerConfig| peer@)
}

/// Whether no two entries have the same name.
pub open spec fn distinct(peers: Seq<PeerConfig>) -> bool {
    forall|i: int, j: int|
        0 <= i < j < peers.len() ==> (#[trigger] peers[i]).name@ != (#[trigger] peers[j]).name@
}

/// A session loop that is to be started: the peer, and with which settings and
/// under which node name.
pub struct Launch {
    pub peer: PeerConfig,
    pub client: ClientConfig,
    pub node: String,
}

/// A session loop: what it was started with.
pub ghost struct SessionLoop {
    pub peer: Peer,
    pub client: ClientConfig,
    pub node: Seq<char>,
}

impl View for Launch {
    type V = SessionLoop;

    open spec fn view(&self) -> SessionLoop {
        SessionLoop { peer: self.peer@, client: self.client, node: self.node@ }
    }
}

/// Session loops by the names of their peers.
pub type Loops = Map<Seq<char>, SessionLoop>;

/// The peers of session loops.
pub open spec fn peers_of(loops: Loops) -> Peers {
    loops.map_values(|session_loop: SessionLoop| session_loop.peer)
}

/// The peers of session loops that are to be started.
pub open spec fn launched(launches: Seq<Launch>) -> Seq<Peer> {
    launches.map_values(|launch: Launch| launch.peer@)
}

/// What to do about the session loops: first stop some, then start others.
pub struct Plan {
    pub stop: Vec<String>,
    pub start: Vec<Launch>,
}

impl Plan {
    /// Whether the plan leads from one set of session loops to another: it
    /// stops, once each, those that are gone or changed, and starts, once
    /// each, those that are new or changed.
    pub open spec fn leads(self, before: Peers, after: Peers) -> bool {
        &&& texts(self.stop@).no_duplicates()
        &&& launched(self.start@).no_duplicates()
        &&& forall|name: Seq<char>| #[trigger]
            texts(self.stop@).contains(name) <==> before.contains_key(name) && !unchanged(
                before,
                after,
                name,
            )
        &&& forall|peer: Peer| #[trigger]
            launched(self.start@).contains(peer) <==> after.contains_key(peer.name)
                && after[peer.name] == peer && !unchanged(before, after, peer.name)
    }

    /// Whether every loop that the plan starts is started with the client
    /// settings of the configuration and under its node name.
    pub open spec fn starts_as(self, config: Config) -> bool {
        forall|i: int|
            0 <= i < self.start@.len() ==> {
                &&& config.client == Some((#[trigger] self.start@[i]).client)
                &&& self.start@[i].node@ == config.node.name@
            }
    }

    /// Whether the plan starts a session loop for the name.
    pub open spec fn starts(self, name: Seq<char>) -> bool {
        exists|i: int| 0 <= i < self.start@.len() && (#[trigger] self.start@[i]).peer.name@ == name
    }

    /// The session loops once the plan is carried out: those that ran and were
    /// not stopped, and those that were started.
    pub open spec fn carried_out(self, before: Loops) -> Loops {
        Map::new(
            |name: Seq<char>|
                self.starts(name) || before.contains_key(name) && !texts(self.stop@).contains(name),
            |name: Seq<char>|
                if self.starts(name) {
                    self.start@[choose|i: int|
                        0 <= i < self.start@.len() && (#[trigger] self.start@[i]).peer.name@
                            == name]@
                } else {
                    before[name]
                },
        )
    }
}

/// The session loops of a node.
pub struct PeerManager {
    running: Vec<PeerConfig>,
}

impl View for PeerManager {
    type V = Peers;

    closed spec fn view(&self) -> Peers {
        peer_map(self.running@)
    }
}

/// An entry that says the same.
fn copied(peer: &PeerConfig) -> (copy: PeerConfig)
    ensures
        copy@ == peer@,
{
    PeerConfig { name: peer.name.clone(), host: peer.host.clone(), port: peer.port }
}

/// Whether two entries say the same.
fn same(a: &PeerConfig, b: &PeerConfig) -> (yes: bool)
    ensures
        yes == (a@ == b@),
{
    a.name == b.name && a.host == b.host && a.port == b.port
}

/// The map knows a name exactly if an entry has it, and says of it what the last
/// such entry says.
proof fn lemma_peer_map(peers: Seq<PeerConfig>, i: int)
    requires
        0 <= i < peers.len(),
    ensures
        peer_map(peers).contains_key(peers[i].name@),
        (forall|k: int| i < k < peers.len() ==> (#[trigger] peers[k]).name@ != peers[i].name@)
            ==> peer_map(peers)[peers[i].name@] == peers[i]@,
    decreases peers.len(),
{
    let before = peers.drop_last();
    if i < before.len() {
        lemma_peer_map(before, i);
        assert(before[i] == peers[i]);
        if forall|k: int| i < k < peers.len() ==> (#[trigger] peers[k]).name@ != peers[i].name@ {
            assert forall|k: int| i < k < before.len() implies (#[trigger] before[k]).name@
                != before[i].name@ by {
                assert(before[k] == peers[k]);
            }
            assert(peers[peers.len() - 1].name@ != peers[i].name@);
        }
    }
}

/// A name that the map knows is the name of some entry, and of a last one.
proof fn lemma_peer_map_key(peers: Seq<PeerConfig>, name: Seq<char>) -> (i: int)
    requires
        peer_map(peers).contains_key(name),
    ensures
        0 <= i < peers.len(),
        peers[i].name@ == name,
        peer_map(peers)[name] == peers[i]@,
        forall|k: int| i < k < peers.len() ==> (#[trigger] peers[k]).name@ != name,
    decreases peers.len(),
{
    if peers.last().name@ == name {
        peers.len() - 1
    } else {
        let before = peers.drop_last();
        let i = lemma_peer_map_key(before, name);
        assert forall|k: int| i < k < peers.len() implies (#[trigger] peers[k]).name@ != name by {
            if k < before.len() {
                assert(before[k] == peers[k]);
            }
        }
        i
    }
}

/// The last entry with a name.
fn find_last(peers: &Vec<PeerConfig>, name: &String) -> (found: Option<usize>)
    ensures
        match found {
            Some(i) => {
                &&& i < peers@.len()
                &&& peers@[i as int].name@ == name@
                &&& forall|k: int| i < k < peers@.len() ==> (#[trigger] peers@[k]).name@ != name@
            },
            None => forall|k: int| 0 <= k < peers@.len() ==> (#[trigger] peers@[k]).name@ != name@,
        },
{
    let mut i: usize = peers.len();
    while i > 0
        invariant
            i <= peers@.len(),
            forall|k: int| i <= k < peers@.len() ==> (#[trigger] peers@[k]).name@ != name@,
        decreases i,
    {
        i -= 1;
        if peers[i].name == *name {
            return Some(i);
        }
    }
    None
}

/// Whether the configuration wants exactly this session.
fn wants(config: &Config, peer: &PeerConfig) -> (yes: bool)
    ensures
        yes == (wanted(*config).contains_key(peer.name@) && wanted(*config)[peer.name@] == peer@),
{
    if config.client.is_none() {
        return false;
    }
    match find_last(&config.peers, &peer.name) {
        Some(i) => {
            proof {
                lemma_peer_map(config.peers@, i as int);
            }
            same(&config.peers[i], peer)
        },
        None => {
            proof {
                if peer_map(config.peers@).contains_key(peer.name@) {
                    let i = lemma_peer_map_key(config.peers@, peer.name@);
                }
            }
            false
        },
    }
}

impl PeerManager {
    /// What holds of the session loops at all times: there is one for a name.
    pub closed spec fn wf(self) -> bool {
        distinct(self.running@)
    }

    /// No session loops.
    pub fn new() -> (manager: PeerManager)
        ensures
            manager.wf(),
            manager@ == Peers::empty(),
    {
        PeerManager { running: Vec::new() }
    }

    /// Keeps the session loops that the configuration wants as they are, and
    /// names the others.
    fn retain(&mut self, config: &Config) -> (stop: Vec<String>)
        requires
            old(self).wf(),
        ensures
            final(self).wf(),
            texts(stop@).no_duplicates(),
            forall|name: Seq<char>| #[trigger]
                texts(stop@).contains(name) <==> old(self)@.contains_key(name) && !unchanged(
                    old(self)@,
                    wanted(*config),
                    name,
                ),
            forall|name: Seq<char>| #[trigger]
                final(self)@.contains_key(name) <==> old(self)@.contains_key(name) && unchanged(
                    old(self)@,
                    wanted(*config),
                    name,
                ),
            forall|name: Seq<char>| #[trigger]
                final(self)@.contains_key(name) ==> final(self)@[name] == wanted(*config)[name],
    {
        let ghost before = self@;
        let ghost goal = wanted(*config);
        let mut kept: Vec<PeerConfig> = Vec::new();
        let mut stop: Vec<String> = Vec::new();
        let mut i: usize = 0;
        while i < self.running.len()
            invariant
                i <= self.running@.len(),
                distinct(self.running@),
                before == peer_map(self.running@),
                goal == wanted(*config),
                distinct(kept@),
                texts(stop@).no_duplicates(),
                forall|k: int|
                    0 <= k < kept@.len() ==> {
                        &&& name_among(self.running@, i as int, (#[trigger] kept@[k]).name@)
                        &&& before.contains_key(kept@[k].name@)
                        &&& before[kept@[k].name@] == kept@[k]@
                        &&& unchanged(before, goal, kept@[k].name@)
                    },
                forall|k: int|
                    0 <= k < stop@.len() ==> {
                        &&& name_among(self.running@, i as int, (#[trigger] stop@[k])@)
                        &&& before.contains_key(stop@[k]@)
                        &&& !unchanged(before, goal, stop@[k]@)
                    },
                forall|k: int|
                    0 <= k < i ==> {
                        ||| name_among(kept@, kept@.len() as int, (#[trigger] self.running@[k]).name@)
                        ||| texts(stop@).contains(self.running@[k].name@)
                    },
            decreases self.running@.len() - i,
        {
            let peer = &self.running[i];
            let ghost kept0 = kept@;
            let ghost stop0 = stop@;
            proof {
                lemma_peer_map(self.running@, i as int);
            }
            if wants(config, peer) {
                kept.push(copied(peer));
                proof {
                    assert(kept@[kept0.len() as int].name@ == peer.name@);
                    assert forall|name: Seq<char>| name_among(
                        kept0,
                        kept0.len() as int,
                        name,
                    ) implies #[trigger] name_among(kept@, kept@.len() as int, name) by {
                        let k = choose|k: int|
                            0 <= k < kept0.len() && (#[trigger] kept0[k]).name@ == name;
                        assert(kept@[k] == kept0[k]);
                    }
                }
            } else {
                stop.push(peer.name.clone());
                proof {
                    assert(texts(stop@) =~= texts(stop0).push(peer.name@));
                    assert(texts(stop@)[stop0.len() as int] == peer.name@);
                    assert forall|name: Seq<char>| texts(stop0).contains(
                        name,
                    ) implies #[trigger] texts(stop@).contains(name) by {
                        let k = choose|k: int|
                            0 <= k < texts(stop0).len() && texts(stop0)[k] == name;
                        assert(texts(stop@)[k] == name);
                    }
                    assert forall|k: int| 0 <= k < stop0.len() implies texts(stop@)[k]
                        != peer.name@ by {
                        assert(stop0[k]@ == texts(stop@)[k]);
                    }
                }
            }
            proof {
                assert forall|name: Seq<char>| name_among(
                    self.running@,
                    i as int,
                    name,
                ) implies #[trigger] name_among(self.running@, i + 1, name) by {}
                assert(name_among(self.running@, i + 1, self.running@[i as int].name@));
            }
            i += 1;
        }
        proof {
            assert forall|name: Seq<char>| #[trigger]
                texts(stop@).contains(name) <==> before.contains_key(name) && !unchanged(
                    before,
                    goal,
                    name,
                ) by {
                if texts(stop@).contains(name) {
                    let k = choose|k: int| 0 <= k < texts(stop@).len() && texts(stop@)[k] == name;
                    assert(stop@[k]@ == name);
                }
                if before.contains_key(name) && !unchanged(before, goal, name) {
                    let k = lemma_peer_map_key(self.running@, name);
                    assert(self.running@[k].name@ == name);
                }
            }
            assert forall|name: Seq<char>| #[trigger]
                peer_map(kept@).contains_key(name) <==> before.contains_key(name) && unchanged(
                    before,
                    goal,
                    name,
                ) by {
                if peer_map(kept@).contains_key(name) {
                    let k = lemma_peer_map_key(kept@, name);
                    assert(kept@[k].name@ == name);
                }
                if before.contains_key(name) && unchanged(before, goal, name) {
                    let k = lemma_peer_map_key(self.running@, name);
                    assert(self.running@[k].name@ == name);
                    if texts(stop@).contains(name) {
                        let s = choose|s: int|
                            0 <= s < texts(stop@).len() && texts(stop@)[s] == name;
                        assert(stop@[s]@ == name);
                    }
                    let m = choose|m: int|
                        0 <= m < kept@.len() && (#[trigger] kept@[m]).name@ == name;
                    lemma_peer_map(kept@, m);
                }
            }
            assert forall|name: Seq<char>| #[trigger]
                peer_map(kept@).contains_key(name) implies peer_map(kept@)[name] == goal[name] by {
                let k = lemma_peer_map_key(kept@, name);
                assert(kept@[k].name@ == name);
            }
        }
        self.running = kept;
        stop
    }

    /// Adds the session loops that the configuration wants and that are
    /// missing.
    fn extend(&mut self, config: &Config) -> (start: Vec<PeerConfig>)
        requires
            old(self).wf(),
            forall|name: Seq<char>| #[trigger]
                old(self)@.contains_key(name) ==> wanted(*config).contains_key(name)
                    && wanted(*config)[name] == old(self)@[name],
        ensures
            final(self).wf(),
            final(self)@ == wanted(*config),
            entries(start@).no_duplicates(),
            forall|peer: Peer| #[trigger]
                entries(start@).contains(peer) <==> wanted(*config).contains_key(peer.name)
                    && wanted(*config)[peer.name] == peer && !old(self)@.contains_key(peer.name),
    {
        let ghost before = self@;
        let ghost goal = wanted(*config);
        let mut start: Vec<PeerConfig> = Vec::new();
        if config.client.is_none() {
            assert(self@ =~= goal);
            return start;
        }
        let peers = &config.peers;
        let mut i: usize = 0;
        while i < peers.len()
            invariant
                i <= peers@.len(),
                goal == peer_map(peers@),
                distinct(self.running@),
                forall|name: Seq<char>| #[trigger]
                    before.contains_key(name) ==> peer_map(self.running@).contains_key(name),
                forall|name: Seq<char>| #[trigger]
                    peer_map(self.running@).contains_key(name) ==> goal.contains_key(name)
                        && goal[name] == peer_map(self.running@)[name],
                entries(start@).no_duplicates(),
                forall|k: int|
                    0 <= k < start@.len() ==> {
                        &&& peer_map(self.running@).contains_key((#[trigger] start@[k]).name@)
                        &&& goal[start@[k].name@] == start@[k]@
                        &&& !before.contains_key(start@[k].name@)
                    },
                forall|name: Seq<char>| #[trigger]
                    peer_map(self.running@).contains_key(name) ==> before.contains_key(name)
                        || entries(start@).contains(goal[name]),
                forall|k: int|
                    0 <= k < i && (forall|m: int|
                        k < m < peers@.len() ==> (#[trigger] peers@[m]).name@ != peers@[k].name@)
                        ==> peer_map(self.running@).contains_key((#[trigger] peers@[k]).name@),
            decreases peers@.len() - i,
        {
            let peer = &peers[i];
            let last = match find_last(peers, &peer.name) {
                Some(k) => k == i,
                None => false,
            };
            proof {
                lemma_peer_map(peers@, i as int);
            }
            let missing = match find_last(&self.running, &peer.name) {
                Some(k) => {
                    proof {
                        lemma_peer_map(self.running@, k as int);
                    }
                    false
                },
                None => {
                    proof {
                        if peer_map(self.running@).contains_key(peer.name@) {
                            let k = lemma_peer_map_key(self.running@, peer.name@);
                        }
                    }
                    true
                },
            };
            if last && missing {
                let ghost running0 = self.running@;
                let ghost start0 = start@;
                self.running.push(copied(peer));
                start.push(copied(peer));
                proof {
                    assert(self.running@.drop_last() =~= running0);
                    assert(peer_map(self.running@) == peer_map(running0).insert(
                        peer.name@,
                        peer@,
                    ));
                    assert(entries(start@) =~= entries(start0).push(peer@));
                    assert(entries(start@)[start0.len() as int] == peer@);
                    assert forall|p: Peer| entries(start0).contains(p) implies #[trigger] entries(
                        start@,
                    ).contains(p) by {
                        let k = choose|k: int|
                            0 <= k < entries(start0).len() && entries(start0)[k] == p;
                        assert(entries(start@)[k] == p);
                    }
                    assert forall|k: int| 0 <= k < start0.len() implies entries(start@)[k]
                        != peer@ by {
                        assert(start0[k]@ == entries(start@)[k]);
                    }
                    assert forall|k: int| 0 <= k < running0.len() implies (
                    #[trigger] self.running@[k]).name@ != peer.name@ by {
                        assert(self.running@[k] == running0[k]);
                    }
                }
            }
            i += 1;
        }
        proof {
            assert forall|name: Seq<char>| #[trigger]
                goal.contains_key(name) implies peer_map(self.running@).contains_key(name) by {
                let k = lemma_peer_map_key(peers@, name);
                assert(peers@[k].name@ == name);
            }
            assert(peer_map(self.running@) =~= goal);
            assert forall|peer: Peer| #[trigger]
                entries(start@).contains(peer) <==> goal.contains_key(peer.name)
                    && goal[peer.name] == peer && !before.contains_key(peer.name) by {
                if entries(start@).contains(peer) {
                    let k = choose|k: int|
                        0 <= k < entries(start@).len() && entries(start@)[k] == peer;
                    assert(start@[k]@ == peer);
                }
            }
        }
        start
    }

    /// Gives each peer the client settings and the node name of the
    /// configuration.
    fn launches(peers: &Vec<PeerConfig>, config: &Config) -> (start: Vec<Launch>)
        requires
            config.client is None ==> peers@.len() == 0,
        ensures
            launched(start@) == entries(peers@),
            forall|i: int|
                0 <= i < start@.len() ==> {
                    &&& config.client == Some((#[trigger] start@[i]).client)
                    &&& start@[i].node@ == config.node.name@
                },
    {
        let mut start: Vec<Launch> = Vec::new();
        if let Some(client) = &config.client {
            let mut i: usize = 0;
            while i < peers.len()
                invariant
                    i <= peers@.len(),
                    config.client == Some(*client),
                    start@.len() == i,
                    forall|k: int|
                        0 <= k < i ==> {
                            &&& (#[trigger] start@[k]).peer@ == peers@[k]@
                            &&& config.client == Some(start@[k].client)
                            &&& start@[k].node@ == config.node.name@
                        },
                decreases peers@.len() - i,
            {
                let settings = ClientConfig {
                    heartbeat_interval: client.heartbeat_interval,
                    max_misses: client.max_misses,
                    reconnect_delay: client.reconnect_delay,
                };
                start.push(
                    Launch {
                        peer: copied(&peers[i]),
                        client: settings,
                        node: config.node.name.clone(),
                    },
                );
                i += 1;
            }
        }
        assert(launched(start@) =~= entries(peers@));
        start
    }

    /// Takes a new configuration over. Afterwards there is a session loop for
    /// each peer that it wants, as it says, and no other. Session loops whose
    /// peer's entry did not change are neither stopped nor started.
    pub fn reconfigure(&mut self, config: &Config) -> (plan: Plan)
        requires
            old(self).wf(),
        ensures
            final(self).wf(),
            final(self)@ == wanted(*config),
            plan.leads(old(self)@, wanted(*config)),
            plan.starts_as(*config),
    {
        let stop = self.retain(config);
        let peers = self.extend(config);
        proof {
            assert forall|peer: Peer| #[trigger]
                entries(peers@).contains(peer) <==> wanted(*config).contains_key(peer.name)
                    && wanted(*config)[peer.name] == peer && !unchanged(
                    old(self)@,
                    wanted(*config),
                    peer.name,
                ) by {}
            if config.client is None && peers@.len() > 0 {
                assert(entries(peers@)[0] == peers@[0]@);
                assert(entries(peers@).contains(peers@[0]@));
            }
        }
        let start = Self::launches(&peers, config);
        Plan { stop, start }
    }

    /// Gives all session loops up and names them.
    pub fn shutdown(&mut self) -> (stop: Vec<String>)
        requires
            old(self).wf(),
        ensures
            final(self).wf(),
            final(self)@ == Peers::empty(),
            texts(stop@).no_duplicates(),
            forall|name: Seq<char>| #[trigger]
                texts(stop@).contains(name) <==> old(self)@.contains_key(name),
    {
        let mut stop: Vec<String> = Vec::new();
        let mut i: usize = 0;
        while i < self.running.len()
            invariant
                i <= self.running@.len(),
                stop@.len() == i,
                distinct(self.running@),
                forall|k: int| 0 <= k < i ==> (#[trigger] stop@[k])@ == self.running@[k].name@,
            decreases self.running@.len() - i,
        {
            stop.push(self.running[i].name.clone());
            i += 1;
        }
        proof {
            assert forall|a: int, b: int| 0 <= a < b < texts(stop@).len() implies texts(stop@)[a]
                != texts(stop@)[b] by {
                assert(stop@[a]@ == self.running@[a].name@);
                assert(stop@[b]@ == self.running@[b].name@);
            }
            assert forall|name: Seq<char>| #[trigger]
                texts(stop@).contains(name) <==> self@.contains_key(name) by {
                if texts(stop@).contains(name) {
                    let k = choose|k: int| 0 <= k < texts(stop@).len() && texts(stop@)[k] == name;
                    assert(stop@[k]@ == self.running@[k].name@);
                    lemma_peer_map(self.running@, k);
                }
                if self@.contains_key(name) {
                    let k = lemma_peer_map_key(self.running@, name);
                    assert(stop@[k]@ == name);
                    assert(texts(stop@)[k] == name);
                }
            }
        }
        self.running = Vec::new();
        stop
    }
}

/// Peers are found under their own names.
proof fn lemma_peers_under_their_names(peers: Seq<PeerConfig>, name: Seq<char>)
    requires
        peer_map(peers).contains_key(name),
    ensures
        peer_map(peers)[name].name == name,
    decreases peers.len(),
{
    if peers.len() > 0 && peers.last().name@ != name {
        lemma_peers_under_their_names(peers.drop_last(), name);
    }
}

/// Carrying a plan out gives exactly the session loops that the configuration
/// wants. Each that was started got the client settings and the node name of the
/// configuration; each other goes on as it was.
pub proof fn law_plan_gives_what_is_wanted(plan: Plan, before: Loops, config: Config)
    requires
        plan.leads(peers_of(before), wanted(config)),
        plan.starts_as(config),
    ensures
        peers_of(plan.carried_out(before)) == wanted(config),
        forall|name: Seq<char>| #[trigger]
            wanted(config).contains_key(name) ==> plan.carried_out(before)[name] == if unchanged(
                peers_of(before),
                wanted(config),
                name,
            ) {
                before[name]
            } else {
                SessionLoop {
                    peer: wanted(config)[name],
                    client: config.client->0,
                    node: config.node.name@,
                }
            },
{
    let after = wanted(config);
    let now = plan.carried_out(before);
    let ran = peers_of(before);
    assert forall|name: Seq<char>| #[trigger] after.contains_key(name) implies after[name].name
        == name by {
        lemma_peers_under_their_names(config.peers@, name);
    }
    assert forall|name: Seq<char>| #[trigger] now.contains_key(name) == after.contains_key(name)
        && (after.contains_key(name) ==> now[name].peer == after[name] && now[name]
        == if unchanged(ran, after, name) {
        before[name]
    } else {
        SessionLoop { peer: after[name], client: config.client->0, node: config.node.name@ }
    }) by {
        let peers = launched(plan.start@);
        if after.contains_key(name) && !unchanged(ran, after, name) {
            assert(peers.contains(after[name]));
            let k = choose|k: int| 0 <= k < peers.len() && peers[k] == after[name];
            assert(plan.start@[k].peer.name@ == name);
            assert(plan.starts(name));
        }
        if plan.starts(name) {
            let k = choose|k: int|
                0 <= k < plan.start@.len() && (#[trigger] plan.start@[k]).peer.name@ == name;
            assert(peers[k] == plan.start@[k].peer@);
            assert(peers.contains(peers[k]));
        }
    }
    assert(peers_of(now) =~= after);
}

/// With a configuration that keeps the rules and has client settings, there is
/// one session loop for each entry, with the peer that the entry says; those
/// that were started for it have its client settings and its node name.
pub proof fn law_one_loop_for_each_entry(plan: Plan, before: Loops, config: Config, i: int)
    requires
        config.valid(),
        config.client is Some,
        plan.leads(peers_of(before), wanted(config)),
        plan.starts_as(config),
        0 <= i < config.peers@.len(),
    ensures
        ({
            let now = plan.carried_out(before);
            let name = config.peers@[i].name@;
            &&& now.contains_key(name)
            &&& now[name].peer == config.peers@[i]@
            &&& plan.starts(name) ==> now[name].client == config.client->0 && now[name].node
                == config.node.name@
            &&& forall|other: Seq<char>| #[trigger]
                now.contains_key(other) ==> name_among(
                    config.peers@,
                    config.peers@.len() as int,
                    other,
                )
        }),
{
    let now = plan.carried_out(before);
    let name = config.peers@[i].name@;
    law_plan_gives_what_is_wanted(plan, before, config);
    law_every_valid_peer_wanted(config, i);
    assert(peers_of(now).contains_key(name));
    assert(peers_of(now)[name] == now[name].peer);
    if plan.starts(name) {
        let k = choose|k: int|
            0 <= k < plan.start@.len() && (#[trigger] plan.start@[k]).peer.name@ == name;
        assert(launched(plan.start@)[k] == plan.start@[k].peer@);
        assert(launched(plan.start@).contains(plan.start@[k].peer@));
    }
    assert forall|other: Seq<char>| #[trigger] now.contains_key(other) implies name_among(
        config.peers@,
        config.peers@.len() as int,
        other,
    ) by {
        assert(peers_of(now).contains_key(other));
        let k = lemma_peer_map_key(config.peers@, other);
        assert(config.peers@[k].name@ == other);
    }
}

/// A new configuration leaves the sessions alone whose peers it says the same
/// of: they are neither stopped nor started.
pub proof fn law_unchanged_peers_undisturbed(plan: Plan, before: Peers, config: Config, peer: Peer)
    requires
        plan.leads(before, wanted(config)),
        before.contains_key(peer.name),
        before[peer.name] == peer,
        wanted(config).contains_key(peer.name),
        wanted(config)[peer.name] == peer,
    ensures
        !texts(plan.stop@).contains(peer.name),
        !launched(plan.start@).contains(peer),
{
}

/// The same configuration again changes nothing: no session is stopped and none
/// is started.
pub proof fn law_same_configuration_changes_nothing(plan: Plan, config: Config)
    requires
        plan.leads(wanted(config), wanted(config)),
    ensures
        plan.stop@.len() == 0,
        plan.start@.len() == 0,
{
    if plan.stop@.len() > 0 {
        let name = plan.stop@[0]@;
        assert(texts(plan.stop@)[0] == name);
        assert(texts(plan.stop@).contains(name));
    }
    if plan.start@.len() > 0 {
        let peer = plan.start@[0].peer@;
        assert(launched(plan.start@)[0] == peer);
        assert(launched(plan.start@).contains(peer));
    }
}

/// A peer whose host or port changed is stopped and started again.
pub proof fn law_changed_peers_restarted(plan: Plan, before: Peers, after: Peers, name: Seq<char>)
    requires
        plan.leads(before, after),
        before.contains_key(name),
        after.contains_key(name),
        before[name] != after[name],
        after[name].name == name,
    ensures
        texts(plan.stop@).contains(name),
        launched(plan.start@).contains(after[name]),
{
}

/// Without client settings every session is stopped and none is started.
pub proof fn law_no_client_no_sessions(plan: Plan, before: Peers, config: Config)
    requires
        config.client is None,
        plan.leads(before, wanted(config)),
    ensures
        plan.start@.len() == 0,
        forall|name: Seq<char>| #[trigger]
            texts(plan.stop@).contains(name) <==> before.contains_key(name),
{
    if plan.start@.len() > 0 {
        let peer = plan.start@[0].peer@;
        assert(launched(plan.start@)[0] == peer);
        assert(launched(plan.start@).contains(peer));
    }
}

/// A configuration that keeps the rules wants a session with each of its
/// peers: no entry hides another.
pub proof fn law_every_valid_peer_wanted(config: Config, i: int)
    requires
        config.valid(),
        config.client is Some,
        0 <= i < config.peers@.len(),
    ensures
        wanted(config).contains_key(config.peers@[i].name@),
        wanted(config)[config.peers@[i].name@] == config.peers@[i]@,
{
    lemma_peer_map(config.peers@, i);
}

/// With client settings, a configuration wants a session with each peer that it
/// names and with no other; where a name occurs more than once, as the last
/// entry says. Without client settings it wants none.
pub proof fn law_wanted_peers(config: Config, i: int, name: Seq<char>)
    requires
        0 <= i < config.peers@.len(),
        forall|k: int|
            i < k < config.peers@.len() ==> (#[trigger] config.peers@[k]).name@
                != config.peers@[i].name@,
    ensures
        config.client is Some ==> {
            &&& wanted(config).contains_key(config.peers@[i].name@)
            &&& wanted(config)[config.peers@[i].name@].name == config.peers@[i].name@
            &&& wanted(config)[config.peers@[i].name@].host == config.peers@[i].host@
            &&& wanted(config)[config.peers@[i].name@].port == config.peers@[i].port
            &&& wanted(config).contains_key(name) ==> exists|k: int|
                0 <= k < config.peers@.len() && (#[trigger] config.peers@[k]).name@ == name
        },
        config.client is None ==> !wanted(config).contains_key(name),
{
    lemma_peer_map(config.peers@, i);
    if config.client is Some && wanted(config).contains_key(name) {
        let k = lemma_peer_map_key(config.peers@, name);
        assert(config.peers@[k].name@ == name);
    }
}

/// A session loop is left alone exactly if the peer was and is wanted, with the
/// same host and port; each other that ran is stopped, and each other that is
/// wanted is started, once each.
pub proof fn law_what_a_plan_does(plan: Plan, before: Peers, after: Peers, peer: Peer)
    requires
        plan.leads(before, after),
        after.contains_key(peer.name) ==> after[peer.name].name == peer.name,
    ensures
        texts(plan.stop@).contains(peer.name) <==> before.contains_key(peer.name) && !(
        after.contains_key(peer.name) && before[peer.name] == after[peer.name]),
        launched(plan.start@).contains(peer) <==> after.contains_key(peer.name) && after[peer.name]
            == peer && !(before.contains_key(peer.name) && before[peer.name] == peer),
        forall|i: int, k: int|
            0 <= i < k < plan.stop@.len() ==> (#[trigger] plan.stop@[i])@ != (
            #[trigger] plan.stop@[k])@,
        forall|i: int, k: int|
            0 <= i < k < plan.start@.len() ==> (#[trigger] plan.start@[i]).peer@ != (
            #[trigger] plan.start@[k]).peer@,
{
    let names = texts(plan.stop@);
    let peers = launched(plan.start@);
    assert forall|i: int, k: int| 0 <= i < k < plan.stop@.len() implies (
    #[trigger] plan.stop@[i])@ != (#[trigger] plan.stop@[k])@ by {
        assert(names[i] != names[k]);
    }
    assert forall|i: int, k: int| 0 <= i < k < plan.start@.len() implies (
    #[trigger] plan.start@[i]).peer@ != (#[trigger] plan.start@[k]).peer@ by {
        assert(peers[i] != peers[k]);
    }
}

/// What a loop is started with is what the plan says.
pub proof fn law_launches_as_their_fields_say(launch: Launch)
    ensures
        launch@.peer.name == launch.peer.name@,
        launch@.peer.host == launch.peer.host@,
        launch@.peer.port == launch.peer.port,
        launch@.client == launch.client,
        launch@.node == launch.node@,
{
}

} // verus!
