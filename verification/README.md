# tcp-monitor

Monitors long-lived TCP sessions between the nodes of a network. Every node
accepts heartbeat sessions from its peers and keeps heartbeat sessions to the
peers in its configuration, and reports session state, heartbeat health and
disconnect reasons to Prometheus.

The rules are a library whose functions carry contracts that Verus proves; the
program around it does the input and output.

## Library (`src/`)

| Module | What it holds |
|--------|---------------|
| `cli` | the command line |
| `config` | the configuration, its defaults and its rules; reloading |
| `text`, `bytes` | decimal numbers and addresses; big-endian numbers |
| `protocol` | heartbeat packets, the handshake, peer names |
| `disconnect` | I/O failures and disconnect reasons |
| `families` | counter and gauge families of `prometheus_client` |
| `exposition` | the text that a scrape gets |
| `metrics` | the catalogue of metrics, their labels, the answer to a scrape |
| `client`, `client_laws` | outbound sessions and the reconnect loop |
| `manager` | which peers have a session loop, and what a reload changes |
| `connections` | the limit on inbound connections |
| `server`, `server_laws` | inbound sessions and the probe port |
| `node_laws` | all sessions of a node together, and what a scrape shows of them |

Sessions and loops are state machines. Each takes what happened, updates the
metrics and says what to do next; their contracts give the next state, the next
action and the metrics exactly. The `law_` functions state what holds of them
over any sequence of events.

What is not proved: the contracts of the few functions marked
`#[verifier::external_body]` and of the `assume_specification` items, which
describe `prometheus_client`, `tokio` and the standard library. Each says in its
doc comment what it claims.

## Program (`app/`)

Sockets, timers, signals, the TOML file, the `/metrics` endpoint and the gauges
in seconds, which are floating-point numbers.
