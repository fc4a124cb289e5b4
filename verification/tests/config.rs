use tcp_monitor::config::{
    default_heartbeat_interval, default_max_misses, default_peer_port, default_reconnect_delay,
    load, reload, ClientConfig, Config, LoadError, NodeConfig, PeerConfig, ServerConfig,
};

fn peer(name: &str, host: &str) -> PeerConfig {
    PeerConfig { name: name.to_string(), host: host.to_string(), port: default_peer_port() }
}

fn sample() -> Config {
    Config {
        node: NodeConfig { name: "server1".to_string() },
        server: ServerConfig {
            bind: "0.0.0.0".to_string(),
            port: 9700,
            metrics_port: 9702,
            probe_port: 9701,
            heartbeat_recv_timeout: 90,
            probe_idle_timeout: 30,
        },
        client: Some(ClientConfig {
            heartbeat_interval: default_heartbeat_interval(),
            max_misses: default_max_misses(),
            reconnect_delay: default_reconnect_delay(),
        }),
        peers: vec![peer("server2", "192.168.1.2"), peer("server3", "192.168.1.3")],
    }
}

fn fault(config: &Config) -> String {
    config.validate().unwrap_err()
}

#[test]
fn defaults() {
    assert_eq!(default_peer_port(), 9700);
    assert_eq!(default_heartbeat_interval(), 30);
    assert_eq!(default_max_misses(), 3);
    assert_eq!(default_reconnect_delay(), 10);
}

#[test]
fn sample_configuration_is_valid() {
    assert_eq!(sample().validate(), Ok(()));
}

#[test]
fn server_only_configuration_is_valid() {
    let mut config = sample();
    config.client = None;
    config.peers = Vec::new();
    assert_eq!(config.validate(), Ok(()));
}

#[test]
fn empty_node_name_is_refused() {
    let mut config = sample();
    config.node.name = String::new();
    assert_eq!(fault(&config), "node.name must not be empty");
}

#[test]
fn shared_ports_are_refused() {
    let mut config = sample();
    config.server.metrics_port = 9700;
    assert_eq!(fault(&config), "server.port and server.metrics_port must not share port 9700");
    let mut config = sample();
    config.server.probe_port = 9700;
    assert_eq!(fault(&config), "server.port and server.probe_port must not share port 9700");
    let mut config = sample();
    config.server.probe_port = 9702;
    assert_eq!(
        fault(&config),
        "server.metrics_port and server.probe_port must not share port 9702"
    );
    let mut config = sample();
    config.server.port = 0;
    config.server.metrics_port = 0;
    assert_eq!(fault(&config), "server.port and server.metrics_port must not share port 0");
    let mut config = sample();
    config.server.port = 65535;
    config.server.probe_port = 65535;
    assert_eq!(fault(&config), "server.port and server.probe_port must not share port 65535");
}

#[test]
fn first_shared_port_is_reported() {
    let mut config = sample();
    config.server.port = 80;
    config.server.metrics_port = 80;
    config.server.probe_port = 80;
    assert_eq!(fault(&config), "server.port and server.metrics_port must not share port 80");
}

#[test]
fn zero_waits_are_refused() {
    let mut config = sample();
    config.server.heartbeat_recv_timeout = 0;
    assert_eq!(fault(&config), "server.heartbeat_recv_timeout must be at least 1");
    let mut config = sample();
    config.client.as_mut().unwrap().heartbeat_interval = 0;
    assert_eq!(fault(&config), "client.heartbeat_interval must be at least 1");
    let mut config = sample();
    config.client.as_mut().unwrap().reconnect_delay = 0;
    assert_eq!(fault(&config), "client.reconnect_delay must be at least 1");
}

#[test]
fn zero_misses_and_zero_idle_timeout_are_accepted() {
    let mut config = sample();
    config.client.as_mut().unwrap().max_misses = 0;
    config.server.probe_idle_timeout = 0;
    assert_eq!(config.validate(), Ok(()));
}

#[test]
fn faulty_peers_are_refused() {
    let mut config = sample();
    config.peers.push(peer("", "h"));
    assert_eq!(fault(&config), "every [[peers]] entry must have a non-empty name");
    let mut config = sample();
    config.peers.push(peer("server4", ""));
    assert_eq!(fault(&config), "peer 'server4' has an empty host");
    let mut config = sample();
    config.peers.push(peer("server2", "10.0.0.1"));
    assert_eq!(fault(&config), "duplicate peer name: 'server2'");
    let mut config = sample();
    config.peers.push(peer("server2", ""));
    assert_eq!(fault(&config), "peer 'server2' has an empty host");
}

#[test]
fn peers_are_checked_without_client_settings() {
    let mut config = sample();
    config.client = None;
    config.peers.push(peer("server3", "h"));
    assert_eq!(fault(&config), "duplicate peer name: 'server3'");
}

#[test]
fn load_reports_what_went_wrong() {
    assert_eq!(load("/etc/x.toml", Ok(sample())).unwrap().node.name, "server1");
    assert_eq!(
        load("/etc/x.toml", Err(LoadError::Read("No such file".to_string()))).unwrap_err(),
        "read /etc/x.toml: No such file"
    );
    assert_eq!(
        load("/etc/x.toml", Err(LoadError::Parse("bad".to_string()))).unwrap_err(),
        "parse /etc/x.toml: bad"
    );
    let mut config = sample();
    config.node.name = String::new();
    assert_eq!(load("/etc/x.toml", Ok(config)).unwrap_err(), "node.name must not be empty");
}

#[test]
fn rejected_reload_keeps_the_running_configuration() {
    let mut running = sample();
    let mut broken = sample();
    broken.node.name = "other".to_string();
    broken.server.heartbeat_recv_timeout = 0;
    assert_eq!(
        reload(&mut running, "c", Ok(broken)).unwrap_err(),
        "server.heartbeat_recv_timeout must be at least 1"
    );
    assert_eq!(running.node.name, "server1");
    assert_eq!(
        reload(&mut running, "c", Err(LoadError::Parse("bad".to_string()))).unwrap_err(),
        "parse c: bad"
    );
    assert_eq!(
        reload(&mut running, "c", Err(LoadError::Read("gone".to_string()))).unwrap_err(),
        "read c: gone"
    );
    assert_eq!(running.node.name, "server1");
    let mut good = sample();
    good.node.name = "other".to_string();
    assert_eq!(reload(&mut running, "c", Ok(good)), Ok(()));
    assert_eq!(running.node.name, "other");
}
