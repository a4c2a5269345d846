use rs_srp::srpc::config::{
    default_wss_path, validate, ClientConfig, ClientQuic, ClientSection, ClientSecurity, ClientTcp,
    ClientTransports, ClientWss, ProxyRule,
};
use rs_srp::types::{Endpoint, ProxyKind, TransportKind};

fn text(v: &toml::Value) -> String {
    v.as_str().unwrap().to_string()
}

fn port(v: &toml::Value) -> u16 {
    u16::try_from(v.as_integer().unwrap()).unwrap()
}

fn endpoint(v: &toml::Value) -> Endpoint {
    let (host, port) = v.as_str().unwrap().rsplit_once(':').unwrap();
    Endpoint { host: host.to_string(), port: port.parse().unwrap() }
}

fn parse(raw: &str) -> ClientConfig {
    let doc: toml::Table = raw.parse().expect("parse failed");
    let client = doc["client"].as_table().unwrap();
    let blocks = client["transports"].as_table().unwrap();
    let security = &doc["security"];
    let kind = |v: &toml::Value| match v.as_str().unwrap() {
        "tcp" => TransportKind::Tcp,
        "quic" => TransportKind::Quic,
        "wss" => TransportKind::Wss,
        other => panic!("unknown transport {}", other),
    };
    let proxy = |p: &toml::Value| ProxyRule {
        name: text(&p["name"]),
        kind: if p["type"].as_str() == Some("udp") { ProxyKind::Udp } else { ProxyKind::Tcp },
        local_addr: endpoint(&p["local_addr"]),
        remote_port: port(&p["remote_port"]),
    };
    ClientConfig {
        client: ClientSection {
            server_host: text(&client["server_host"]),
            transport_priority: client["transport_priority"]
                .as_array()
                .unwrap()
                .iter()
                .map(kind)
                .collect(),
            server_noise_pubkey: text(&client["server_noise_pubkey"]),
            server_cert_fingerprint: text(&client["server_cert_fingerprint"]),
            transports: ClientTransports {
                tcp: blocks.get("tcp").map(|b| ClientTcp { port: port(&b["port"]) }),
                quic: blocks.get("quic").map(|b| ClientQuic { port: port(&b["port"]) }),
                wss: blocks.get("wss").map(|b| ClientWss {
                    port: port(&b["port"]),
                    path: b.get("path").map_or_else(default_wss_path, text),
                }),
            },
        },
        security: ClientSecurity {
            server_secret: text(&security["server_secret"]),
            username: text(&security["username"]),
            token: text(&security["token"]),
        },
        proxies: doc
            .get("proxies")
            .map(|p| p.as_array().unwrap().iter().map(proxy).collect())
            .unwrap_or_default(),
    }
}

const CANONICAL_TOML: &str = r#"
[client]
server_host = "srp.example.com"
transport_priority = ["quic", "wss", "tcp"]
server_noise_pubkey = "AAAAAAAAAAAAAAAAAAAAAAAAAAAAAAAAAAAAAAAAAAA="
server_cert_fingerprint = "sha256:0011223344556677889900aabbccddeeff0011223344556677889900aabbccdd"

[client.transports.quic]
port = 7101

[client.transports.wss]
port = 7102
path = "/srp-tunnel"

[client.transports.tcp]
port = 7100

[security]
server_secret = "change-me-service-psk"
username = "alice"
token = "alice-secret-token"

[[proxies]]
name = "ssh"
type = "tcp"
local_addr = "127.0.0.1:22"
remote_port = 20022
"#;

fn rule(name: &str, local_port: u16, remote_port: u16) -> ProxyRule {
    ProxyRule {
        name: name.to_string(),
        kind: ProxyKind::Tcp,
        local_addr: Endpoint { host: "127.0.0.1".to_string(), port: local_port },
        remote_port,
    }
}

fn config(priority: Vec<TransportKind>, transports: ClientTransports) -> ClientConfig {
    ClientConfig {
        client: ClientSection {
            server_host: "srp.example.com".to_string(),
            transport_priority: priority,
            server_noise_pubkey: "AAAAAAAAAAAAAAAAAAAAAAAAAAAAAAAAAAAAAAAAAAA=".to_string(),
            server_cert_fingerprint:
                "sha256:0011223344556677889900aabbccddeeff0011223344556677889900aabbccdd"
                    .to_string(),
            transports,
        },
        security: ClientSecurity {
            server_secret: "change-me-service-psk".to_string(),
            username: "alice".to_string(),
            token: "alice-secret-token".to_string(),
        },
        proxies: Vec::new(),
    }
}

fn tcp_only() -> ClientTransports {
    ClientTransports { tcp: Some(ClientTcp { port: 7100 }), quic: None, wss: None }
}

#[test]
fn parse_canonical_config_succeeds() {
    let cfg = parse(CANONICAL_TOML);
    assert_eq!(cfg.client.server_host, "srp.example.com");
    assert_eq!(
        cfg.client.transport_priority,
        vec![TransportKind::Quic, TransportKind::Wss, TransportKind::Tcp]
    );
    assert!(cfg.client.transports.quic.is_some());
    assert!(cfg.client.transports.wss.is_some());
    assert!(cfg.client.transports.tcp.is_some());
    assert_eq!(cfg.client.transports.wss.as_ref().unwrap().path, "/srp-tunnel");
    assert_eq!(cfg.security.username, "alice");
    assert_eq!(cfg.proxies.len(), 1);
    assert_eq!(cfg.proxies[0].name, "ssh");
    assert_eq!(cfg.proxies[0].kind, ProxyKind::Tcp);
    assert_eq!(cfg.proxies[0].remote_port, 20022);
    // validate should also pass
    validate(&cfg).expect("validation failed");
}

#[test]
fn missing_transport_block_is_rejected() {
    // Lists "tcp" in priority but has no [client.transports.tcp] block
    let bad_toml = r#"
[client]
server_host = "srp.example.com"
transport_priority = ["tcp"]
server_noise_pubkey = "AAAAAAAAAAAAAAAAAAAAAAAAAAAAAAAAAAAAAAAAAAA="
server_cert_fingerprint = "sha256:0011223344556677889900aabbccddeeff0011223344556677889900aabbccdd"

[client.transports.quic]
port = 7101

[security]
server_secret = "change-me-service-psk"
username = "alice"
token = "alice-secret-token"
"#;
    let cfg = parse(bad_toml);
    let err = validate(&cfg).unwrap_err();
    assert!(err.message().contains("tcp"), "error should mention tcp: {}", err.message());
    assert_eq!(
        err.message(),
        "transport 'tcp' is listed in transport_priority but has no [client.transports.tcp] block"
    );
}

#[test]
fn empty_transport_priority_is_rejected() {
    let bad_toml = r#"
[client]
server_host = "srp.example.com"
transport_priority = []
server_noise_pubkey = "AAAAAAAAAAAAAAAAAAAAAAAAAAAAAAAAAAAAAAAAAAA="
server_cert_fingerprint = "sha256:0011223344556677889900aabbccddeeff0011223344556677889900aabbccdd"

[client.transports.tcp]
port = 7100

[security]
server_secret = "change-me-service-psk"
username = "alice"
token = "alice-secret-token"
"#;
    let cfg = parse(bad_toml);
    let err = validate(&cfg).unwrap_err();
    assert!(err.message().contains("transport_priority"));
    assert_eq!(err.message(), "client.transport_priority must not be empty");
}

#[test]
fn duplicate_proxy_names_rejected() {
    let bad_toml = r#"
[client]
server_host = "srp.example.com"
transport_priority = ["tcp"]
server_noise_pubkey = "AAAAAAAAAAAAAAAAAAAAAAAAAAAAAAAAAAAAAAAAAAA="
server_cert_fingerprint = "sha256:0011223344556677889900aabbccddeeff0011223344556677889900aabbccdd"

[client.transports.tcp]
port = 7100

[security]
server_secret = "change-me-service-psk"
username = "alice"
token = "alice-secret-token"

[[proxies]]
name = "ssh"
type = "tcp"
local_addr = "127.0.0.1:22"
remote_port = 20022

[[proxies]]
name = "ssh"
type = "tcp"
local_addr = "127.0.0.1:8080"
remote_port = 20080
"#;
    let cfg = parse(bad_toml);
    let err = validate(&cfg).unwrap_err();
    assert!(err.message().contains("ssh"));
    assert_eq!(err.message(), "duplicate proxy name: 'ssh'");
}

#[test]
fn wss_path_defaults_when_omitted() {
    let toml_no_path = r#"
[client]
server_host = "srp.example.com"
transport_priority = ["wss"]
server_noise_pubkey = "AAAAAAAAAAAAAAAAAAAAAAAAAAAAAAAAAAAAAAAAAAA="
server_cert_fingerprint = "sha256:0011223344556677889900aabbccddeeff0011223344556677889900aabbccdd"

[client.transports.wss]
port = 7102

[security]
server_secret = "change-me-service-psk"
username = "alice"
token = "alice-secret-token"
"#;
    let cfg = parse(toml_no_path);
    assert_eq!(cfg.client.transports.wss.as_ref().unwrap().path, "/srp-tunnel");
    assert!(validate(&cfg).is_ok());
}

#[test]
fn first_transport_without_a_block_is_named() {
    let cfg = config(
        vec![TransportKind::Tcp, TransportKind::Wss, TransportKind::Quic],
        tcp_only(),
    );
    assert_eq!(
        validate(&cfg).unwrap_err().message(),
        "transport 'wss' is listed in transport_priority but has no [client.transports.wss] block"
    );
    let cfg = config(vec![TransportKind::Quic], tcp_only());
    assert_eq!(
        validate(&cfg).unwrap_err().message(),
        "transport 'quic' is listed in transport_priority but has no [client.transports.quic] block"
    );
}

#[test]
fn blank_pins_are_rejected_in_order() {
    let mut cfg = config(vec![TransportKind::Tcp], tcp_only());
    cfg.client.server_host = " \t".to_string();
    cfg.client.server_noise_pubkey = "\u{3000}\n".to_string();
    cfg.client.server_cert_fingerprint = String::new();
    assert_eq!(validate(&cfg).unwrap_err().message(), "client.server_host must not be empty");
    cfg.client.server_host = " h ".to_string();
    assert_eq!(
        validate(&cfg).unwrap_err().message(),
        "client.server_noise_pubkey must not be empty"
    );
    cfg.client.server_noise_pubkey = "k".to_string();
    assert_eq!(
        validate(&cfg).unwrap_err().message(),
        "client.server_cert_fingerprint must not be empty"
    );
    cfg.client.server_cert_fingerprint = "f".to_string();
    assert!(validate(&cfg).is_ok());
}

#[test]
fn first_repeated_proxy_is_named() {
    let mut cfg = config(vec![TransportKind::Tcp], tcp_only());
    for name in ["a", "b", "c", "b", "a"] {
        cfg.proxies.push(rule(name, 1, 2));
    }
    assert_eq!(validate(&cfg).unwrap_err().message(), "duplicate proxy name: 'b'");
}
