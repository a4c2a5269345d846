use rs_srp::srpd::config::{
    default_dashboard_bind, default_true, default_wss_path, parse_port_range, validate,
    DashboardConfig, PortRange, Security, ServerConfig, TransportListener, Transports, User,
    WssListener,
};
use rs_srp::types::{Endpoint, TransportKind};

fn text(v: &toml::Value) -> String {
    v.as_str().unwrap().to_string()
}

fn endpoint(v: &toml::Value) -> Endpoint {
    let (host, port) = v.as_str().unwrap().rsplit_once(':').unwrap();
    Endpoint { host: host.to_string(), port: port.parse().unwrap() }
}

fn enabled(block: &toml::Value) -> bool {
    block.get("enabled").map_or_else(default_true, |v| v.as_bool().unwrap())
}

fn parse(raw: &str) -> ServerConfig {
    let doc: toml::Table = raw.parse().expect("should parse");
    let blocks = doc["transports"].as_table().unwrap();
    let listener =
        |b: &toml::Value| TransportListener { enabled: enabled(b), bind: endpoint(&b["bind"]) };
    let user = |u: &toml::Value| User {
        name: text(&u["name"]),
        token: text(&u["token"]),
        allow_remote_ports: u
            .get("allow_remote_ports")
            .map(|p| p.as_array().unwrap().iter().map(text).collect())
            .unwrap_or_default(),
    };
    ServerConfig {
        public_host: doc.get("public_host").map(text),
        state_dir: text(&doc["state_dir"]),
        transports: Transports {
            tcp: blocks.get("tcp").map(listener),
            quic: blocks.get("quic").map(listener),
            wss: blocks.get("wss").map(|b| WssListener {
                enabled: enabled(b),
                bind: endpoint(&b["bind"]),
                path: b.get("path").map_or_else(default_wss_path, text),
            }),
        },
        security: Security { server_secret: text(&doc["security"]["server_secret"]) },
        users: doc
            .get("users")
            .map(|u| u.as_array().unwrap().iter().map(user).collect())
            .unwrap_or_default(),
        dashboard: DashboardConfig::default(),
    }
}

const SAMPLE_TOML: &str = r#"
public_host = "srp.example.com"
state_dir = "./srpd-state"

[transports.tcp]
enabled = true
bind = "0.0.0.0:7100"

[transports.quic]
enabled = true
bind = "0.0.0.0:7101"

[transports.wss]
enabled = true
bind = "0.0.0.0:7102"
path = "/srp-tunnel"

[security]
server_secret = "change-me-service-psk"

[[users]]
name = "alice"
token = "alice-secret-token"
allow_remote_ports = ["20000-21000"]

[[users]]
name = "bob"
token = "bob-secret-token"
allow_remote_ports = ["8080", "22000"]
"#;

fn any(port: u16) -> Endpoint {
    Endpoint { host: "0.0.0.0".to_string(), port }
}

fn user(name: &str, token: &str, ports: &[&str]) -> User {
    User {
        name: name.to_string(),
        token: token.to_string(),
        allow_remote_ports: ports.iter().map(|s| s.to_string()).collect(),
    }
}

fn minimal(secret: &str, tcp_enabled: bool, users: Vec<User>) -> ServerConfig {
    ServerConfig {
        public_host: None,
        state_dir: "./state".to_string(),
        transports: Transports {
            tcp: Some(TransportListener { enabled: tcp_enabled, bind: any(7100) }),
            quic: None,
            wss: None,
        },
        security: Security { server_secret: secret.to_string() },
        users,
        dashboard: DashboardConfig::default(),
    }
}

#[test]
fn parses_valid_sample() {
    let cfg = parse(SAMPLE_TOML);
    validate(&cfg).expect("should be valid");

    assert_eq!(cfg.public_host.as_deref(), Some("srp.example.com"));
    assert_eq!(cfg.state_dir, "./srpd-state");
    assert_eq!(cfg.security.server_secret, "change-me-service-psk");

    let tcp = cfg.transports.tcp.as_ref().unwrap();
    assert!(tcp.enabled);
    assert_eq!(tcp.bind.port, 7100);

    let quic = cfg.transports.quic.as_ref().unwrap();
    assert!(quic.enabled);
    assert_eq!(quic.bind.port, 7101);

    let wss = cfg.transports.wss.as_ref().unwrap();
    assert!(wss.enabled);
    assert_eq!(wss.bind.port, 7102);
    assert_eq!(wss.path, "/srp-tunnel");

    assert_eq!(cfg.users.len(), 2);
    assert_eq!(cfg.users[0].name, "alice");
    assert_eq!(cfg.users[1].name, "bob");
}

#[test]
fn rejects_no_enabled_transports() {
    let bad = r#"
state_dir = "./state"

[security]
server_secret = "s3cret"

[transports.tcp]
enabled = false
bind = "0.0.0.0:7100"
"#;
    let cfg = parse(bad);
    assert!(validate(&cfg).is_err());
    assert_eq!(
        validate(&cfg).unwrap_err().message(),
        "at least one transport ([transports.tcp], [transports.quic], or [transports.wss]) must be \
         present and enabled"
    );
}

#[test]
fn rejects_empty_server_secret() {
    let bad = r#"
state_dir = "./state"

[transports.tcp]
bind = "0.0.0.0:7100"

[security]
server_secret = ""
"#;
    let cfg = parse(bad);
    assert!(validate(&cfg).is_err());
    assert_eq!(
        validate(&cfg).unwrap_err().message(),
        "security.server_secret must not be empty"
    );
}

#[test]
fn rejects_duplicate_user_names() {
    let bad = r#"
state_dir = "./state"

[transports.tcp]
bind = "0.0.0.0:7100"

[security]
server_secret = "s3cret"

[[users]]
name = "alice"
token = "tok1"

[[users]]
name = "alice"
token = "tok2"
"#;
    let cfg = parse(bad);
    assert!(validate(&cfg).is_err());
    assert_eq!(validate(&cfg).unwrap_err().message(), "duplicate user name: \"alice\"");
}

#[test]
fn rejects_the_first_bad_port_entry() {
    let cfg = minimal(
        "s3cret",
        true,
        vec![
            user("alice", "t", &["1-2", "3"]),
            user("bob", "t", &["4", "9-8", "x"]),
            user("carol", "t", &["y"]),
        ],
    );
    assert_eq!(
        validate(&cfg).unwrap_err().message(),
        "invalid allow_remote_ports entry \"9-8\" for user \"bob\""
    );
}

#[test]
fn dashboard_defaults_to_loopback() {
    let d = DashboardConfig::default();
    assert!(d.enabled);
    assert_eq!(d.bind.to_text(), "127.0.0.1:1564");
    assert_eq!(default_dashboard_bind().port, 1564);
    assert_eq!(default_wss_path(), "/srp-tunnel");
}

#[test]
fn transports_are_enabled_one_by_one() {
    let cfg = minimal("s3cret", true, vec![]);
    assert!(cfg.transports.is_enabled(TransportKind::Tcp));
    assert!(!cfg.transports.is_enabled(TransportKind::Quic));
    assert!(!cfg.transports.is_enabled(TransportKind::Wss));
}

// ----- port range parser -------------------------------------------------

#[test]
fn port_range_single() {
    let r = parse_port_range("8080").unwrap();
    assert_eq!(r, PortRange { lo: 8080, hi: 8080 });
}

#[test]
fn port_range_range() {
    let r = parse_port_range("20000-21000").unwrap();
    assert_eq!(r, PortRange { lo: 20000, hi: 21000 });
}

#[test]
fn port_range_inverted_is_error() {
    assert!(parse_port_range("21000-20000").is_err());
    assert_eq!(
        parse_port_range("21000-20000").unwrap_err().message(),
        "port range \"21000-20000\": low port 21000 must be <= high port 20000"
    );
}

#[test]
fn port_range_overflow_is_error() {
    assert!(parse_port_range("70000").is_err());
    assert!(parse_port_range("1-70000").is_err());
    assert_eq!(
        parse_port_range("1-70000").unwrap_err().message(),
        "high port \"70000\" is not a valid u16"
    );
}

#[test]
fn port_range_not_a_number_is_error() {
    assert!(parse_port_range("abc").is_err());
    assert!(parse_port_range("80-abc").is_err());
    assert_eq!(
        parse_port_range("abc").unwrap_err().message(),
        "\"abc\" is not a valid port number (u16)"
    );
    assert_eq!(
        parse_port_range("abc-80").unwrap_err().message(),
        "low port \"abc\" is not a valid u16"
    );
}

#[test]
fn port_range_edges() {
    assert_eq!(parse_port_range("0").unwrap(), PortRange { lo: 0, hi: 0 });
    assert_eq!(parse_port_range("65535").unwrap(), PortRange { lo: 65535, hi: 65535 });
    assert!(parse_port_range("65536").is_err());
    assert_eq!(parse_port_range("0-65535").unwrap(), PortRange { lo: 0, hi: 65535 });
    assert_eq!(parse_port_range("7-7").unwrap(), PortRange { lo: 7, hi: 7 });
    assert_eq!(parse_port_range("+7").unwrap(), PortRange { lo: 7, hi: 7 });
    assert_eq!(parse_port_range("007").unwrap(), PortRange { lo: 7, hi: 7 });
    assert_eq!(
        parse_port_range("00000000000000000000000000001").unwrap(),
        PortRange { lo: 1, hi: 1 }
    );
    for bad in ["", "-", "1-", "-1", "1-2-3", " 1", "1 ", "+", "++1", "1--2", "٣"] {
        assert!(parse_port_range(bad).is_err(), "{}", bad);
    }
    assert_eq!(
        parse_port_range("1-2-3").unwrap_err().message(),
        "high port \"2-3\" is not a valid u16"
    );
    assert_eq!(parse_port_range("-1").unwrap_err().message(), "low port \"\" is not a valid u16");
}

#[test]
fn messages_quote_what_they_are_given() {
    let e = parse_port_range("9-x").unwrap_err();
    assert_eq!(e.piece(), "x");
    assert_eq!(e.message_with("<x>"), "high port <x> is not a valid u16");
    let cfg = minimal("s3cret", true, vec![user("u", "t", &["9-8"])]);
    let e = validate(&cfg).unwrap_err();
    assert_eq!(
        e.message_with("<9-8>", "<u>"),
        "invalid allow_remote_ports entry <9-8> for user <u>"
    );
}
