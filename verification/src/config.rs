//! The configuration file: its contents, its defaults and the rules that it
//! has to keep before it is used.

use crate::text::{decimal, decimal_text};
use vstd::prelude::*;
use vstd::string::StringExecFns;

verus! {

#[derive(Clone, Debug)]
pub struct Config {
    pub node: NodeConfig,
    pub server: ServerConfig,
    pub client: Option<ClientConfig>,
    pub peers: Vec<PeerConfig>,
}

#[derive(Clone, Debug)]
pub struct NodeConfig {
    pub name: String,
}

#[derive(Clone, Debug)]
pub struct ServerConfig {
    pub bind: String,
    pub port: u16,
    pub metrics_port: u16,
    pub probe_port: u16,
    pub heartbeat_recv_timeout: u64,
    pub probe_idle_timeout: u64,
}

#[derive(Clone, Debug, PartialEq)]
pub struct ClientConfig {
    pub heartbeat_interval: u64,
    pub max_misses: u32,
    pub reconnect_delay: u64,
}

#[derive(Clone, Debug, PartialEq, Eq, Hash)]
pub struct PeerConfig {
    pub name: String,
    pub host: String,
    pub port: u16,
}

/// What a peer entry says.
pub ghost struct Peer {
    pub name: Seq<char>,
    pub host: Seq<char>,
    pub port: u16,
}

impl View for PeerConfig {
    type V = Peer;

    open spec fn view(&self) -> Peer {
        Peer { name: self.name@, host: self.host@, port: self.port }
    }
}

/// The heartbeat port of a peer whose entry gives none.
pub fn default_peer_port() -> (port: u16)
    ensures
        port == 9700,
{
    9700
}

/// Seconds between two heartbeats where the file gives none.
pub fn default_heartbeat_interval() -> (seconds: u64)
    ensures
        seconds == 30,
{
    30
}

/// Consecutive missed echoes that end a session where the file gives none.
pub fn default_max_misses() -> (misses: u32)
    ensures
        misses == 3,
{
    3
}

/// Seconds before a reconnect where the file gives none.
pub fn default_reconnect_delay() -> (seconds: u64)
    ensures
        seconds == 10,
{
    10
}

/// A rule that a configuration breaks.
pub ghost enum Fault {
    EmptyNodeName,
    SharedPort { first: Seq<char>, second: Seq<char>, port: u16 },
    ZeroRecvTimeout,
    ZeroHeartbeatInterval,
    ZeroReconnectDelay,
    EmptyPeerName,
    EmptyHost { peer: Seq<char> },
    DuplicatePeer { peer: Seq<char> },
}

impl Fault {
    /// The message that reports the broken rule.
    pub open spec fn message(self) -> Seq<char> {
        match self {
            Fault::EmptyNodeName => "node.name must not be empty"@,
            Fault::SharedPort { first, second, port } => "server."@ + first + " and server."@ + second
                + " must not share port "@ + decimal(port as nat),
            Fault::ZeroRecvTimeout => "server.heartbeat_recv_timeout must be at least 1"@,
            Fault::ZeroHeartbeatInterval => "client.heartbeat_interval must be at least 1"@,
            Fault::ZeroReconnectDelay => "client.reconnect_delay must be at least 1"@,
            Fault::EmptyPeerName => "every [[peers]] entry must have a non-empty name"@,
            Fault::EmptyHost { peer } => "peer '"@ + peer + "' has an empty host"@,
            Fault::DuplicatePeer { peer } => "duplicate peer name: '"@ + peer + "'"@,
        }
    }
}

/// The first two server ports that are the same, in the order in which the
/// ports are compared.
pub open spec fn port_fault(server: ServerConfig) -> Option<Fault> {
    if server.port == server.metrics_port {
        Some(Fault::SharedPort { first: "port"@, second: "metrics_port"@, port: server.port })
    } else if server.port == server.probe_port {
        Some(Fault::SharedPort { first: "port"@, second: "probe_port"@, port: server.port })
    } else if server.metrics_port == server.probe_port {
        Some(
            Fault::SharedPort {
                first: "metrics_port"@,
                second: "probe_port"@,
                port: server.metrics_port,
            },
        )
    } else {
        None
    }
}

/// A wait of zero seconds that has to be at least one.
pub open spec fn client_fault(client: Option<ClientConfig>) -> Option<Fault> {
    match client {
        Some(c) => if c.heartbeat_interval == 0 {
            Some(Fault::ZeroHeartbeatInterval)
        } else if c.reconnect_delay == 0 {
            Some(Fault::ZeroReconnectDelay)
        } else {
            None
        },
        None => None,
    }
}

/// Whether one of the first `n` entries has the given name.
pub open spec fn name_among(peers: Seq<PeerConfig>, n: int, name: Seq<char>) -> bool {
    exists|i: int| 0 <= i < n && (#[trigger] peers[i]).name@ == name
}

/// What is wrong with the entry at `i`, given those before it.
pub open spec fn peer_fault(peers: Seq<PeerConfig>, i: int) -> Option<Fault> {
    if peers[i].name@.len() == 0 {
        Some(Fault::EmptyPeerName)
    } else if peers[i].host@.len() == 0 {
        Some(Fault::EmptyHost { peer: peers[i].name@ })
    } else if name_among(peers, i, peers[i].name@) {
        Some(Fault::DuplicatePeer { peer: peers[i].name@ })
    } else {
        None
    }
}

/// What is wrong with the first faulty entry among the first `n`.
pub open spec fn peers_fault(peers: Seq<PeerConfig>, n: nat) -> Option<Fault>
    decreases n,
{
    if n == 0 {
        None
    } else {
        match peers_fault(peers, (n - 1) as nat) {
            Some(fault) => Some(fault),
            None => peer_fault(peers, n - 1),
        }
    }
}

/// Whether every entry has a name and a host, and no two have the same name.
pub open spec fn peers_valid(peers: Seq<PeerConfig>) -> bool {
    &&& forall|i: int|
        0 <= i < peers.len() ==> (#[trigger] peers[i]).name@.len() > 0 && peers[i].host@.len() > 0
    &&& forall|i: int, j: int|
        0 <= i < j < peers.len() ==> (#[trigger] peers[i]).name@ != (#[trigger] peers[j]).name@
}

impl Config {
    /// The first rule that the configuration breaks, in the order in which
    /// the rules are tried.
    pub open spec fn fault(self) -> Option<Fault> {
        if self.node.name@.len() == 0 {
            Some(Fault::EmptyNodeName)
        } else if port_fault(self.server) is Some {
            port_fault(self.server)
        } else if self.server.heartbeat_recv_timeout == 0 {
            Some(Fault::ZeroRecvTimeout)
        } else if client_fault(self.client) is Some {
            client_fault(self.client)
        } else {
            peers_fault(self.peers@, self.peers@.len())
        }
    }

    /// Whether the configuration keeps every rule.
    pub open spec fn valid(self) -> bool {
        &&& self.node.name@.len() > 0
        &&& self.server.port != self.server.metrics_port
        &&& self.server.port != self.server.probe_port
        &&& self.server.metrics_port != self.server.probe_port
        &&& self.server.heartbeat_recv_timeout > 0
        &&& self.client matches Some(c) ==> c.heartbeat_interval > 0 && c.reconnect_delay > 0
        &&& peers_valid(self.peers@)
    }

    /// Holds the configuration to the rules and reports the first that it
    /// breaks.
    pub fn validate(&self) -> (result: Result<(), String>)
        ensures
            result is Ok <==> self.valid(),
            result is Ok <==> self.fault() is None,
            result matches Err(message) ==> message@ == self.fault()->0.message(),
    {
        proof {
            law_valid_without_fault(*self);
        }
        if self.node.name.as_str().is_empty() {
            return Err("node.name must not be empty".to_string());
        }
        if self.server.port == self.server.metrics_port {
            return Err(shared_port("port", "metrics_port", self.server.port));
        }
        if self.server.port == self.server.probe_port {
            return Err(shared_port("port", "probe_port", self.server.port));
        }
        if self.server.metrics_port == self.server.probe_port {
            return Err(shared_port("metrics_port", "probe_port", self.server.metrics_port));
        }
        if self.server.heartbeat_recv_timeout == 0 {
            return Err("server.heartbeat_recv_timeout must be at least 1".to_string());
        }
        if let Some(c) = &self.client {
            if c.heartbeat_interval == 0 {
                return Err("client.heartbeat_interval must be at least 1".to_string());
            }
            if c.reconnect_delay == 0 {
                return Err("client.reconnect_delay must be at least 1".to_string());
            }
        }
        validate_peers(&self.peers)
    }
}

/// The message for two ports that are the same.
fn shared_port(first: &str, second: &str, port: u16) -> (message: String)
    ensures
        message@ == (Fault::SharedPort { first: first@, second: second@, port }).message(),
{
    let number = decimal_text(port);
    "server.".to_string().concat(first).concat(" and server.").concat(second).concat(
        " must not share port ",
    ).concat(number.as_str())
}

/// Whether one of the first `n` entries has the given name.
fn has_name(peers: &Vec<PeerConfig>, n: usize, name: &String) -> (found: bool)
    requires
        n <= peers@.len(),
    ensures
        found == name_among(peers@, n as int, name@),
{
    let mut i: usize = 0;
    while i < n
        invariant
            i <= n <= peers@.len(),
            !name_among(peers@, i as int, name@),
        decreases n - i,
    {
        if peers[i].name == *name {
            return true;
        }
        i += 1;
    }
    false
}

/// Reports the first faulty entry.
fn validate_peers(peers: &Vec<PeerConfig>) -> (result: Result<(), String>)
    ensures
        result is Ok <==> peers_fault(peers@, peers@.len()) is None,
        result matches Err(message) ==> message@ == peers_fault(
            peers@,
            peers@.len(),
        )->0.message(),
{
    let mut i: usize = 0;
    while i < peers.len()
        invariant
            i <= peers@.len(),
            peers_fault(peers@, i as nat) is None,
        decreases peers@.len() - i,
    {
        let peer = &peers[i];
        proof {
            lemma_first_fault_stays(peers@, (i + 1) as nat, peers@.len());
        }
        if peer.name.as_str().is_empty() {
            return Err("every [[peers]] entry must have a non-empty name".to_string());
        }
        if peer.host.as_str().is_empty() {
            return Err("peer '".to_string().concat(peer.name.as_str()).concat("' has an empty host"));
        }
        if has_name(peers, i, &peer.name) {
            return Err("duplicate peer name: '".to_string().concat(peer.name.as_str()).concat("'"));
        }
        i += 1;
    }
    Ok(())
}

/// A fault among the first entries is the fault of the whole list.
proof fn lemma_first_fault_stays(peers: Seq<PeerConfig>, n: nat, m: nat)
    requires
        n <= m,
    ensures
        peers_fault(peers, n) is Some ==> peers_fault(peers, m) == peers_fault(peers, n),
    decreases m,
{
    if n < m {
        lemma_first_fault_stays(peers, n, (m - 1) as nat);
    }
}

/// The first `n` entries are without fault exactly if each of them has a name
/// and a host and no two of them have the same name.
proof fn lemma_peers_without_fault(peers: Seq<PeerConfig>, n: nat)
    requires
        n <= peers.len(),
    ensures
        peers_fault(peers, n) is None <==> peers_valid(peers.take(n as int)),
    decreases n,
{
    if n > 0 {
        let before = peers.take(n - 1);
        let all = peers.take(n as int);
        lemma_peers_without_fault(peers, (n - 1) as nat);
        assert forall|i: int| 0 <= i < n - 1 implies #[trigger] before[i] == all[i] by {}
        assert(all[n - 1] == peers[n - 1]);
        if peers_valid(all) {
            assert(peers_valid(before));
            assert forall|i: int| 0 <= i < n - 1 implies (#[trigger] peers[i]).name@ != peers[n
                - 1].name@ by {
                assert(all[i] == peers[i]);
            }
        }
        if peers_valid(before) && peer_fault(peers, n - 1) is None {
            assert forall|i: int, j: int| 0 <= i < j < all.len() implies (#[trigger] all[i]).name@
                != (#[trigger] all[j]).name@ by {
                assert(all[i] == peers[i] && before[i] == peers[i]);
                if j < n - 1 {
                    assert(before[j] == all[j]);
                }
            }
            assert forall|i: int| 0 <= i < all.len() implies (#[trigger] all[i]).name@.len() > 0
                && all[i].host@.len() > 0 by {
                if i < n - 1 {
                    assert(before[i] == all[i]);
                }
            }
        }
    }
}

/// The rules tried one after the other find no fault exactly in the
/// configurations that keep all of them.
pub proof fn law_valid_without_fault(config: Config)
    ensures
        config.fault() is None <==> config.valid(),
{
    lemma_peers_without_fault(config.peers@, config.peers@.len());
    assert(config.peers@.take(config.peers@.len() as int) =~= config.peers@);
}

/// Why no configuration could be read from a file.
#[derive(Clone, Debug)]
pub enum LoadError {
    /// The file could not be read.
    Read(String),
    /// Its text is not a configuration.
    Parse(String),
}

/// The configuration of a file, given what reading and parsing the file came
/// to: a configuration that keeps the rules, or the reason why there is none.
pub fn load(path: &str, parsed: Result<Config, LoadError>) -> (result: Result<Config, String>)
    ensures
        match parsed {
            Ok(config) => match config.fault() {
                None => result == Ok::<Config, String>(config),
                Some(fault) => result matches Err(message) && message@ == fault.message(),
            },
            Err(LoadError::Read(reason)) => result matches Err(message) && message@ == "read "@
                + path@ + ": "@ + reason@,
            Err(LoadError::Parse(reason)) => result matches Err(message) && message@ == "parse "@
                + path@ + ": "@ + reason@,
        },
        result matches Ok(config) ==> config.valid(),
{
    match parsed {
        Ok(config) => match config.validate() {
            Ok(()) => Ok(config),
            Err(message) => Err(message),
        },
        Err(LoadError::Read(reason)) => Err(
            "read ".to_string().concat(path).concat(": ").concat(reason.as_str()),
        ),
        Err(LoadError::Parse(reason)) => Err(
            "parse ".to_string().concat(path).concat(": ").concat(reason.as_str()),
        ),
    }
}

/// Replaces the running configuration by that of the file, unless there is
/// something wrong with the file: then the running one stays.
pub fn reload(running: &mut Config, path: &str, parsed: Result<Config, LoadError>) -> (result:
    Result<(), String>)
    ensures
        match parsed {
            Ok(config) => match config.fault() {
                None => result is Ok && *final(running) == config,
                Some(fault) => *final(running) == *old(running) && (result matches Err(message)
                    && message@ == fault.message()),
            },
            Err(LoadError::Read(reason)) => *final(running) == *old(running) && (
            result matches Err(message) && message@ == "read "@ + path@ + ": "@ + reason@),
            Err(LoadError::Parse(reason)) => *final(running) == *old(running) && (
            result matches Err(message) && message@ == "parse "@ + path@ + ": "@ + reason@),
        },
        old(running).valid() ==> final(running).valid(),
{
    match load(path, parsed) {
        Ok(config) => {
            proof {
                law_valid_without_fault(config);
            }
            *running = config;
            Ok(())
        },
        Err(message) => Err(message),
    }
}

/// A configuration is accepted exactly if the node has a name, the three ports
/// differ, no wait that must not be zero is zero, every peer has a name and a
/// host, and no two peers have the same name. Nothing else matters.
pub proof fn law_rules_of_a_configuration(config: Config)
    ensures
        config.valid() <==> {
            &&& config.node.name@.len() != 0
            &&& config.server.port != config.server.metrics_port
            &&& config.server.port != config.server.probe_port
            &&& config.server.metrics_port != config.server.probe_port
            &&& config.server.heartbeat_recv_timeout != 0
            &&& config.client is Some ==> config.client->0.heartbeat_interval != 0
                && config.client->0.reconnect_delay != 0
            &&& forall|i: int|
                0 <= i < config.peers@.len() ==> (#[trigger] config.peers@[i]).name@.len() != 0
                    && config.peers@[i].host@.len() != 0
            &&& forall|i: int, j: int|
                0 <= i < config.peers@.len() && 0 <= j < config.peers@.len() && i != j ==> (
                #[trigger] config.peers@[i]).name@ != (#[trigger] config.peers@[j]).name@
        },
        config.valid() <==> config.fault() is None,
{
    law_valid_without_fault(config);
    if config.valid() {
        assert forall|i: int, j: int|
            0 <= i < config.peers@.len() && 0 <= j < config.peers@.len() && i != j implies (
        #[trigger] config.peers@[i]).name@ != (#[trigger] config.peers@[j]).name@ by {
            if j < i {
                assert(config.peers@[j].name@ != config.peers@[i].name@);
            }
        }
    }
}

/// The first rule that is broken is reported: first of the node, then of the
/// ports, then of the waits, then of the peers.
pub proof fn law_first_broken_rule_reported(config: Config)
    ensures
        ({
            let server = config.server;
            let named = config.node.name@.len() != 0;
            let apart = server.port != server.metrics_port && server.port != server.probe_port
                && server.metrics_port != server.probe_port;
            let timed = server.heartbeat_recv_timeout != 0;
            let paced = config.client is Some ==> config.client->0.heartbeat_interval != 0
                && config.client->0.reconnect_delay != 0;
            &&& !named ==> config.fault() == Some(Fault::EmptyNodeName)
            &&& named && server.port == server.metrics_port ==> config.fault() == Some(
                Fault::SharedPort {
                    first: "port"@,
                    second: "metrics_port"@,
                    port: server.port,
                },
            )
            &&& named && server.port != server.metrics_port && server.port == server.probe_port
                ==> config.fault() == Some(
                Fault::SharedPort { first: "port"@, second: "probe_port"@, port: server.port },
            )
            &&& named && server.port != server.metrics_port && server.port != server.probe_port
                && server.metrics_port == server.probe_port ==> config.fault() == Some(
                Fault::SharedPort {
                    first: "metrics_port"@,
                    second: "probe_port"@,
                    port: server.metrics_port,
                },
            )
            &&& named && apart && !timed ==> config.fault() == Some(Fault::ZeroRecvTimeout)
            &&& named && apart && timed && config.client is Some
                && config.client->0.heartbeat_interval == 0 ==> config.fault() == Some(
                Fault::ZeroHeartbeatInterval,
            )
            &&& named && apart && timed && config.client is Some
                && config.client->0.heartbeat_interval != 0 && config.client->0.reconnect_delay
                == 0 ==> config.fault() == Some(Fault::ZeroReconnectDelay)
            &&& named && apart && timed && paced ==> (config.fault() is Some ==> config.fault()->0
                is EmptyPeerName || config.fault()->0 is EmptyHost || config.fault()->0
                is DuplicatePeer)
        }),
{
    lemma_peers_fault_is_of_a_peer(config.peers@, config.peers@.len());
}

proof fn lemma_peers_fault_is_of_a_peer(peers: Seq<PeerConfig>, n: nat)
    ensures
        peers_fault(peers, n) matches Some(fault) ==> fault is EmptyPeerName || fault is EmptyHost
            || fault is DuplicatePeer,
    decreases n,
{
    if n > 0 {
        lemma_peers_fault_is_of_a_peer(peers, (n - 1) as nat);
    }
}

/// Where all else is in order, the first peer that breaks a rule is reported: it
/// has no name, or no host, or the name of an earlier one.
pub proof fn law_first_faulty_peer_reported(config: Config, i: int)
    requires
        0 <= i < config.peers@.len(),
        config.node.name@.len() != 0,
        config.server.port != config.server.metrics_port,
        config.server.port != config.server.probe_port,
        config.server.metrics_port != config.server.probe_port,
        config.server.heartbeat_recv_timeout != 0,
        config.client is Some ==> config.client->0.heartbeat_interval != 0
            && config.client->0.reconnect_delay != 0,
        forall|k: int|
            0 <= k < i ==> (#[trigger] config.peers@[k]).name@.len() != 0
                && config.peers@[k].host@.len() != 0,
        forall|k: int, m: int|
            0 <= k < m < i ==> (#[trigger] config.peers@[k]).name@ != (
            #[trigger] config.peers@[m]).name@,
    ensures
        ({
            let peer = config.peers@[i];
            let earlier = exists|k: int|
                0 <= k < i && (#[trigger] config.peers@[k]).name@ == peer.name@;
            &&& peer.name@.len() == 0 ==> config.fault() == Some(Fault::EmptyPeerName)
            &&& peer.name@.len() != 0 && peer.host@.len() == 0 ==> config.fault() == Some(
                Fault::EmptyHost { peer: peer.name@ },
            )
            &&& peer.name@.len() != 0 && peer.host@.len() != 0 && earlier ==> config.fault()
                == Some(Fault::DuplicatePeer { peer: peer.name@ })
        }),
{
    let peers = config.peers@;
    let before = peers.take(i);
    lemma_peers_without_fault(peers, i as nat);
    assert forall|k: int| 0 <= k < i implies (#[trigger] before[k]).name@.len() > 0
        && before[k].host@.len() > 0 by {
        assert(before[k] == peers[k]);
    }
    assert forall|k: int, m: int| 0 <= k < m < i implies (#[trigger] before[k]).name@ != (
    #[trigger] before[m]).name@ by {
        assert(before[k] == peers[k] && before[m] == peers[m]);
    }
    assert(peers_valid(before));
    assert(peers_fault(peers, i as nat) is None);
    assert(peers_fault(peers, (i + 1) as nat) == peer_fault(peers, i));
    lemma_first_fault_stays(peers, (i + 1) as nat, peers.len());
}

/// The messages, in full.
pub proof fn law_messages(first: Seq<char>, second: Seq<char>, port: u16, peer: Seq<char>)
    ensures
        Fault::EmptyNodeName.message() == "node.name must not be empty"@,
        (Fault::SharedPort { first, second, port }).message() == "server."@ + first
            + " and server."@ + second + " must not share port "@ + decimal(port as nat),
        Fault::ZeroRecvTimeout.message() == "server.heartbeat_recv_timeout must be at least 1"@,
        Fault::ZeroHeartbeatInterval.message() == "client.heartbeat_interval must be at least 1"@,
        Fault::ZeroReconnectDelay.message() == "client.reconnect_delay must be at least 1"@,
        Fault::EmptyPeerName.message() == "every [[peers]] entry must have a non-empty name"@,
        (Fault::EmptyHost { peer }).message() == "peer '"@ + peer + "' has an empty host"@,
        (Fault::DuplicatePeer { peer }).message() == "duplicate peer name: '"@ + peer + "'"@,
{
}

/// Entries say the same exactly if name, host and port are the same.
pub proof fn law_entries_as_their_fields_say(a: PeerConfig, b: PeerConfig)
    ensures
        a@ == b@ <==> a.name@ == b.name@ && a.host@ == b.host@ && a.port == b.port,
        a@.name == a.name@,
        a@.host == a.host@,
        a@.port == a.port,
{
}

} // verus!
