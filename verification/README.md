# rs_srp

A NAT-traversal reverse proxy: a relay server with a public address forwards
traffic to services behind NAT, through a tunnel that is encrypted end to end and
multiplexed, and that falls back from one transport to the next.

`src/` is the library: the rules, the data structures and the state machines, in
Verus, with their contracts and proofs. It performs no I/O. `app/` is the program
around it: command line, files, sockets, TLS, QUIC, WebSockets, yamux and the
dashboard's HTTP server.

| module | what it holds |
|---|---|
| `session` | the Noise handshake and the record layer of an encrypted stream |
| `noise` | what is relied on of the `snow` crate |
| `identity`, `crypto`, `tlspin` | the server's persisted keys, the PSK, TLS material and certificate pinning |
| `proto` | control messages, frames and datagrams |
| `mux` | what the task that drives the multiplexer does next |
| `wss` | WebSocket messages as a byte stream |
| `srpc::config`, `srpc::client` | the client's configuration, dialling and control conversation |
| `srpc::link` | the heartbeat, and reconnecting with exponential backoff |
| `srpd::config`, `srpd::server` | the server's configuration, listeners, permissions and control conversation |
| `srpd::udp` | the sessions of a UDP proxy |
| `srpd::client_config`, `srpd::readback` | the `srpc.toml` and the identity card that the server prints, and how the former reads |
| `basic_string`, `document` | TOML strings, and the part of TOML that is printed |
| `srpd::metrics`, `srpd::dashboard` | traffic counters and history, user management |
| `control` | the client and the server talking to each other |
| `text`, `bytes`, `buffer`, `types`, `logging` | shared pieces |

What holds across several functions is stated as a public proof function beside
them. Among others:

- what is read from a session is what was written to it, however the bytes are cut
  up on the way (`session::reads_give_back_writes`), and a client and a server
  whose keys match get such a session (`session::matching_ends_get_a_session`);
- packet boundaries of UDP datagrams survive the byte stream
  (`proto::packet_boundaries_survive`);
- a client is never answered with something it does not expect
  (`control::replies_are_always_expected`), and gets through when its name and
  token are configured (`control::configured_clients_get_through`);
- a public port is bound only for a user who is permitted it
  (`srpd::server::only_permitted_ports_are_bound`), and a permitted proxy of either
  protocol goes live (`srpd::server::permitted_proxies_go_live`);
- a printed `srpc.toml` reads back as what it was printed from, whatever characters
  that holds (`srpd::readback::printed_client_configs_read_back`);
- traffic totals never fall along the history, not even across a restart
  (`srpd::metrics::history_survives_a_restart`);
- a lost tunnel is retried with waits that double up to a cap
  (`srpc::link::backoff_is_exponential`);
- the identity that clients pin survives a restart
  (`identity::identity_survives_reload`);
- edits through the dashboard never break the configuration
  (`srpd::dashboard::edits_keep_configs_valid`).
