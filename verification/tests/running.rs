use tcp_monitor::cli::{parse_config_path, Command};
use tcp_monitor::config::{ClientConfig, Config, NodeConfig, PeerConfig, ServerConfig};
use tcp_monitor::connections::{
    keepalive, AcceptAction, AcceptEvent, Connections, Keepalive, MAX_CONNECTIONS,
};
use tcp_monitor::manager::{PeerManager, Plan};

fn peer(name: &str, host: &str, port: u16) -> PeerConfig {
    PeerConfig { name: name.to_string(), host: host.to_string(), port }
}

fn with_peers(client: bool, peers: Vec<PeerConfig>) -> Config {
    let settings = ClientConfig { heartbeat_interval: 30, max_misses: 3, reconnect_delay: 10 };
    Config {
        node: NodeConfig { name: "a".to_string() },
        server: ServerConfig {
            bind: "0.0.0.0".to_string(),
            port: 9700,
            metrics_port: 9702,
            probe_port: 9701,
            heartbeat_recv_timeout: 90,
            probe_idle_timeout: 30,
        },
        client: if client { Some(settings) } else { None },
        peers,
    }
}

fn stopped(plan: &Plan) -> Vec<&str> {
    let mut names: Vec<&str> = plan.stop.iter().map(|name| name.as_str()).collect();
    names.sort();
    names
}

fn started(plan: &Plan) -> Vec<(&str, &str, u16)> {
    let mut peers: Vec<(&str, &str, u16)> = plan
        .start
        .iter()
        .map(|l| (l.peer.name.as_str(), l.peer.host.as_str(), l.peer.port))
        .collect();
    peers.sort();
    peers
}

#[test]
fn reconfiguring_touches_what_changed() {
    let mut manager = PeerManager::new();
    let plan = manager.reconfigure(&with_peers(
        true,
        vec![peer("b", "h1", 1), peer("c", "h2", 2), peer("d", "h3", 3)],
    ));
    assert!(plan.stop.is_empty());
    assert_eq!(started(&plan), [("b", "h1", 1), ("c", "h2", 2), ("d", "h3", 3)]);

    let plan = manager.reconfigure(&with_peers(
        true,
        vec![peer("e", "h5", 5), peer("c", "h2", 22), peer("b", "h1", 1)],
    ));
    assert_eq!(stopped(&plan), ["c", "d"]);
    assert_eq!(started(&plan), [("c", "h2", 22), ("e", "h5", 5)]);

    let mut names = manager.shutdown();
    names.sort();
    assert_eq!(names, ["b", "c", "e"]);
    assert!(manager.shutdown().is_empty());
}

#[test]
fn same_configuration_changes_nothing() {
    let mut manager = PeerManager::new();
    let config = with_peers(true, vec![peer("b", "h1", 1), peer("c", "h2", 2)]);
    manager.reconfigure(&config);
    let plan = manager.reconfigure(&config);
    assert!(plan.stop.is_empty());
    assert!(plan.start.is_empty());
}

#[test]
fn without_client_settings_every_session_stops() {
    let mut manager = PeerManager::new();
    let peers = vec![peer("b", "h1", 1), peer("c", "h2", 2)];
    manager.reconfigure(&with_peers(true, peers.clone()));
    let plan = manager.reconfigure(&with_peers(false, peers.clone()));
    assert_eq!(stopped(&plan), ["b", "c"]);
    assert!(plan.start.is_empty());
    let plan = manager.reconfigure(&with_peers(true, peers));
    assert!(plan.stop.is_empty());
    assert_eq!(started(&plan), [("b", "h1", 1), ("c", "h2", 2)]);
}

#[test]
fn later_entry_of_a_name_counts() {
    let mut manager = PeerManager::new();
    let plan = manager.reconfigure(&with_peers(
        true,
        vec![peer("b", "h1", 1), peer("c", "h2", 2), peer("b", "h3", 3)],
    ));
    assert_eq!(started(&plan), [("b", "h3", 3), ("c", "h2", 2)]);
}

#[test]
fn connections_are_limited() {
    assert_eq!(MAX_CONNECTIONS, 128);
    let mut connections = Connections::new();
    for n in 0..MAX_CONNECTIONS {
        assert_eq!(connections.active(), n);
        assert_eq!(connections.step(AcceptEvent::Accepted), AcceptAction::Serve);
    }
    assert_eq!(connections.step(AcceptEvent::Accepted), AcceptAction::Refuse);
    assert_eq!(connections.step(AcceptEvent::Accepted), AcceptAction::Refuse);
    assert_eq!(connections.active(), 128);
    connections.release();
    assert_eq!(connections.active(), 127);
    assert_eq!(connections.step(AcceptEvent::Accepted), AcceptAction::Serve);
    assert_eq!(connections.step(AcceptEvent::Accepted), AcceptAction::Refuse);
}

#[test]
fn failed_accept_pauses_and_cancellation_stops() {
    let mut connections = Connections::new();
    assert_eq!(connections.step(AcceptEvent::Failed), AcceptAction::Pause(1));
    assert_eq!(connections.step(AcceptEvent::Cancelled), AcceptAction::Stop);
    assert_eq!(connections.active(), 0);
}

#[test]
fn keepalive_settings() {
    assert_eq!(keepalive(), Keepalive { idle: 60, interval: 10, probes: 6 });
}

fn parse(args: &[&str]) -> Command {
    parse_config_path(&args.iter().map(|arg| arg.to_string()).collect())
}

fn path(args: &[&str]) -> String {
    match parse(args) {
        Command::Run(path) => path,
        other => panic!("{:?}", other),
    }
}

fn refusal(args: &[&str]) -> String {
    match parse(args) {
        Command::Refuse(message) => message,
        other => panic!("{:?}", other),
    }
}

#[test]
fn configuration_path() {
    assert_eq!(path(&[]), "/etc/tcp-monitor/config.toml");
    assert_eq!(path(&["--config", "x.toml"]), "x.toml");
    assert_eq!(path(&["--config", "x.toml", "--nonsense"]), "x.toml");
    assert_eq!(path(&["--config", "--help"]), "--help");
    assert_eq!(path(&["--config", ""]), "");
}

#[test]
fn refused_arguments() {
    assert_eq!(refusal(&["--config"]), "error: --config requires a path argument");
    assert_eq!(refusal(&["-v"]), "error: unknown argument '-v'");
    assert_eq!(refusal(&["x", "--help"]), "error: unknown argument 'x'");
    assert_eq!(refusal(&[""]), "error: unknown argument ''");
}

#[test]
fn usage() {
    for option in ["--help", "-h"] {
        match parse(&[option, "more"]) {
            Command::Usage(lines) => assert_eq!(
                lines,
                [
                    "Usage: tcp-monitor [--config <path>]",
                    "  Default config path: /etc/tcp-monitor/config.toml",
                    "  Log level:           LOG_LEVEL=debug (env var)",
                ]
            ),
            other => panic!("{:?}", other),
        }
    }
}

#[test]
fn loops_start_with_the_new_settings() {
    let mut manager = PeerManager::new();
    let mut config = with_peers(true, vec![peer("b", "h1", 1)]);
    let plan = manager.reconfigure(&config);
    assert_eq!(plan.start[0].node, "a");
    assert_eq!(plan.start[0].client, config.client.clone().unwrap());
    config.node.name = "z".to_string();
    config.client = Some(ClientConfig { heartbeat_interval: 1, max_misses: 2, reconnect_delay: 4 });
    config.peers.push(peer("c", "h2", 2));
    let plan = manager.reconfigure(&config);
    assert!(plan.stop.is_empty());
    assert_eq!(started(&plan), [("c", "h2", 2)]);
    assert_eq!(plan.start[0].node, "z");
    assert_eq!(plan.start[0].client, config.client.unwrap());
}
