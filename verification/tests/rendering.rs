use rs_srp::basic_string::append_escaped;
use rs_srp::identity::{ServerIdentity, StateDir};
use rs_srp::srpc::config::{
    ClientConfig, ClientSection, ClientSecurity, ClientTcp, ClientTransports, ClientWss, ProxyRule,
};
use rs_srp::srpd::client_config::{
    find_user, not_found_message, priority, render_identity_card, render_srpc_toml, resolve_host,
    run, write_identity_card, write_srpc_toml, RenderError,
};
use rs_srp::srpd::config::{
    DashboardConfig, Security, ServerConfig, TransportListener, Transports, User, WssListener,
};
use rs_srp::srpd::server::{enabled_transports, startup};
use rs_srp::text::{
    append_hex, blank, first_repeat, join, number, parse_port, same_text, starts_with, to_chars,
    trim,
};
use rs_srp::types::{Endpoint, ProxyKind, TransportKind};

fn any(port: u16) -> Endpoint {
    Endpoint { host: "0.0.0.0".to_string(), port }
}

fn user(name: &str, token: &str) -> User {
    User { name: name.to_string(), token: token.to_string(), allow_remote_ports: vec![] }
}

fn config() -> ServerConfig {
    ServerConfig {
        public_host: Some("srp.example.com".to_string()),
        state_dir: "./state".to_string(),
        transports: Transports {
            tcp: Some(TransportListener { enabled: true, bind: any(7100) }),
            quic: Some(TransportListener { enabled: true, bind: any(7101) }),
            wss: Some(WssListener {
                enabled: true,
                bind: any(7102),
                path: "/srp-tunnel".to_string(),
            }),
        },
        security: Security { server_secret: "change-me-service-psk".to_string() },
        users: vec![user("alice", "alice-secret-token"), user("bob", "bob-secret-token")],
        dashboard: DashboardConfig::default(),
    }
}

fn identity_with(cert: &str) -> ServerIdentity {
    let mut dir = StateDir {
        tls_cert: Some(cert.to_string()),
        tls_key: Some(String::new()),
        noise_priv: Some(vec![1; 32]),
        noise_pub: Some(vec![2; 32]),
    };
    match ServerIdentity::load_or_create(&mut dir) {
        Ok(id) => id,
        Err(_) => panic!("no identity"),
    }
}

fn identity() -> ServerIdentity {
    identity_with("-----BEGIN X-----\nYWJj\n-----END X-----\n")
}

fn ok(r: Result<String, RenderError>) -> String {
    match r {
        Ok(text) => text,
        Err(e) => panic!("{}", e.message()),
    }
}

fn err(r: Result<String, RenderError>) -> String {
    match r {
        Ok(text) => panic!("{}", text),
        Err(e) => e.message(),
    }
}

#[test]
fn a_full_client_configuration() {
    let expected = "\
# srpc.toml — client configuration for rs_srpc
#
# WARNING: this file contains secrets (token, server_secret).
# Save it as srpc.toml and restrict its permissions (chmod 600).
#
[client]
server_host = \"srp.example.com\"
transport_priority = [\"quic\", \"wss\", \"tcp\"]
server_noise_pubkey = \"AgICAgICAgICAgICAgICAgICAgICAgICAgICAgICAgI=\"
server_cert_fingerprint = \"sha256:ba7816bf8f01cfea414140de5dae2223b00361a396177a9cb410ff61f20015ad\"

[client.transports.quic]
port = 7101

[client.transports.wss]
port = 7102
path = \"/srp-tunnel\"

[client.transports.tcp]
port = 7100

[security]
server_secret = \"change-me-service-psk\"
username = \"alice\"
token = \"alice-secret-token\"

# Edit the proxy entries below to match your services.
# Each [[proxies]] block forwards one local port to the server.
[[proxies]]
name = \"ssh\"
type = \"tcp\"
local_addr = \"127.0.0.1:22\"
remote_port = 20022
";
    assert_eq!(ok(render_srpc_toml(&config(), &identity(), "alice", None)), expected);
    assert_eq!(ok(run(&config(), &identity(), Some("alice"), None)), expected);
}

#[test]
fn a_placeholder_stands_for_an_unknown_host() {
    let mut cfg = config();
    cfg.public_host = None;
    cfg.transports.quic = None;
    cfg.transports.wss.as_mut().unwrap().enabled = false;
    let text = ok(render_srpc_toml(&cfg, &identity(), "bob", None));
    assert!(text.contains(
        "#\n# NOTE: server_host is a placeholder — fill in the server's public address.\n#\n[client]\n"
    ));
    assert!(text.contains("server_host = \"<server-public-host>\"\n"));
    assert!(text.contains("transport_priority = [\"tcp\"]\n"));
    assert!(!text.contains("[client.transports.quic]"));
    assert!(!text.contains("[client.transports.wss]"));
    let text = ok(render_srpc_toml(&cfg, &identity(), "bob", Some("over.ride")));
    assert!(!text.contains("NOTE"));
    assert!(text.contains("server_host = \"over.ride\"\n"));
}

#[test]
fn the_client_configuration_is_toml() {
    let text = ok(render_srpc_toml(&config(), &identity(), "bob", None));
    let doc: toml::Table = text.parse().unwrap();
    let client = doc["client"].as_table().unwrap();
    assert_eq!(client["server_host"].as_str(), Some("srp.example.com"));
    let priority: Vec<&str> =
        client["transport_priority"].as_array().unwrap().iter().map(|v| v.as_str().unwrap()).collect();
    assert_eq!(priority, vec!["quic", "wss", "tcp"]);
    for kind in priority {
        assert!(client["transports"].as_table().unwrap().contains_key(kind));
    }
    assert_eq!(client["transports"]["wss"]["port"].as_integer(), Some(7102));
    assert_eq!(doc["security"]["token"].as_str(), Some("bob-secret-token"));
    assert_eq!(doc["proxies"][0]["remote_port"].as_integer(), Some(20022));
}

#[test]
fn any_value_reads_back_from_the_client_configuration() {
    let odd: String = (0u8..=0x7f).map(char::from).chain(['é', '\u{80}', '\u{1f600}']).collect();
    for value in ["a\"b", "back\\slash", "line\nbreak", "\"\nx = \"1", "\\u0041", odd.as_str()] {
        let mut cfg = config();
        cfg.security.server_secret = value.to_string();
        cfg.transports.wss.as_mut().unwrap().path = value.to_string();
        cfg.users = vec![user(value, value)];
        let text = ok(render_srpc_toml(&cfg, &identity(), value, Some(value)));
        let doc: toml::Table = text.parse().unwrap();
        assert_eq!(doc["client"]["server_host"].as_str(), Some(value));
        assert_eq!(doc["client"]["transports"]["wss"]["path"].as_str(), Some(value));
        assert_eq!(doc["security"]["server_secret"].as_str(), Some(value));
        assert_eq!(doc["security"]["username"].as_str(), Some(value));
        assert_eq!(doc["security"]["token"].as_str(), Some(value));
        assert_eq!(doc.len(), 3);
        assert_eq!(doc["security"].as_table().unwrap().len(), 3);
    }
}

#[test]
fn the_client_accepts_what_is_printed() {
    let mut cfg = config();
    cfg.transports.quic.as_mut().unwrap().enabled = false;
    let text = ok(render_srpc_toml(&cfg, &identity(), "alice", None));
    let doc: toml::Table = text.parse().unwrap();
    let text_of = |v: &toml::Value| v.as_str().unwrap().to_string();
    let port_of = |v: &toml::Value| u16::try_from(v["port"].as_integer().unwrap()).unwrap();
    let client = &doc["client"];
    let proxy = &doc["proxies"][0];
    let read = ClientConfig {
        client: ClientSection {
            server_host: text_of(&client["server_host"]),
            transport_priority: vec![TransportKind::Wss, TransportKind::Tcp],
            server_noise_pubkey: text_of(&client["server_noise_pubkey"]),
            server_cert_fingerprint: text_of(&client["server_cert_fingerprint"]),
            transports: ClientTransports {
                tcp: Some(ClientTcp { port: port_of(&client["transports"]["tcp"]) }),
                quic: None,
                wss: Some(ClientWss {
                    port: port_of(&client["transports"]["wss"]),
                    path: text_of(&client["transports"]["wss"]["path"]),
                }),
            },
        },
        security: ClientSecurity {
            server_secret: text_of(&doc["security"]["server_secret"]),
            username: text_of(&doc["security"]["username"]),
            token: text_of(&doc["security"]["token"]),
        },
        proxies: vec![ProxyRule {
            name: text_of(&proxy["name"]),
            kind: ProxyKind::Tcp,
            local_addr: Endpoint { host: "127.0.0.1".to_string(), port: 22 },
            remote_port: 20022,
        }],
    };
    assert!(text.contains("transport_priority = [\"wss\", \"tcp\"]\n"));
    assert_eq!(text_of(&proxy["local_addr"]), read.proxies[0].local_addr.to_text());
    assert!(rs_srp::srpc::config::validate(&read).is_ok());
    assert_eq!(read.client.transports.tcp.as_ref().unwrap().port, 7100);
    assert_eq!(read.security.token, "alice-secret-token");
}

#[test]
fn strings_are_escaped_where_they_must_be() {
    let written = |s: &str| {
        let mut out = String::new();
        append_escaped(&mut out, s);
        out
    };
    assert_eq!(written("plain é"), "plain é");
    assert_eq!(written("a\"b\\c"), "a\\\"b\\\\c");
    assert_eq!(written("\n\r\t"), "\\n\\r\\t");
    assert_eq!(written("\u{0}\u{1b}\u{7f}"), "\\u0000\\u001b\\u007f");
}

#[test]
fn unknown_users_are_told_who_is_configured() {
    let mut cfg = config();
    assert_eq!(
        err(render_srpc_toml(&cfg, &identity(), "eve", None)),
        "user \"eve\" not found; available users: alice, bob"
    );
    cfg.users.clear();
    assert_eq!(
        err(run(&cfg, &identity(), Some("eve"), None)),
        "user \"eve\" not found; available users: (none configured)"
    );
    // The user is looked up before the certificate.
    assert!(matches!(
        render_srpc_toml(&cfg, &identity_with(""), "eve", None),
        Err(RenderError::UnknownUser(_))
    ));
}

#[test]
fn a_certificate_without_a_fingerprint_is_an_error() {
    assert_eq!(
        err(render_srpc_toml(&config(), &identity_with(""), "bob", None)),
        "decoding the stored TLS certificate"
    );
    assert!(matches!(
        render_identity_card(&config(), &identity_with("")),
        Err(RenderError::Certificate(_))
    ));
    assert!(startup(&config(), &identity_with("")).is_err());
}

#[test]
fn the_identity_card() {
    let expected = "\
=== rs_srpd server identity ===

  public_host          : srp.example.com
  noise_public_key     : AgICAgICAgICAgICAgICAgICAgICAgICAgICAgICAgI=
  cert_fingerprint     : sha256:ba7816bf8f01cfea414140de5dae2223b00361a396177a9cb410ff61f20015ad

  Enabled transports:
    quic   bind=0.0.0.0:7101
    wss    bind=0.0.0.0:7102  path=/srp-tunnel
    tcp    bind=0.0.0.0:7100

  Configured users     : alice, bob

Hint: re-run with `--user <name>` to generate a full srpc.toml.
";
    assert_eq!(ok(render_identity_card(&config(), &identity())), expected);
    assert_eq!(ok(run(&config(), &identity(), None, Some("ignored"))), expected);
}

#[test]
fn a_bare_identity_card() {
    let mut cfg = config();
    cfg.public_host = None;
    cfg.users.clear();
    cfg.transports.quic = None;
    cfg.transports.tcp.as_mut().unwrap().enabled = false;
    let text = ok(render_identity_card(&cfg, &identity()));
    assert!(text.contains("  public_host          : (not configured)\n"));
    assert!(text.contains(
        "  Enabled transports:\n    wss    bind=0.0.0.0:7102  path=/srp-tunnel\n\n"
    ));
    assert!(text.contains("  Configured users     : (none)\n"));
}

#[test]
fn hosts_are_resolved_in_order() {
    let mut cfg = config();
    assert_eq!(resolve_host(&cfg, Some("x")), "x");
    assert_eq!(resolve_host(&cfg, None), "srp.example.com");
    cfg.public_host = None;
    assert_eq!(resolve_host(&cfg, None), "<server-public-host>");
}

#[test]
fn the_first_user_of_a_name_is_found() {
    let users = vec![user("a", "1"), user("b", "2"), user("b", "3")];
    assert_eq!(find_user(&users, "b").unwrap().token, "2");
    assert!(find_user(&users, "c").is_none());
}

#[test]
fn priorities() {
    let mut cfg = config();
    assert_eq!(priority(&cfg), vec![TransportKind::Quic, TransportKind::Wss, TransportKind::Tcp]);
    cfg.transports.wss = None;
    assert_eq!(priority(&cfg), vec![TransportKind::Quic, TransportKind::Tcp]);
}

#[test]
fn the_startup_banner() {
    let s = match startup(&config(), &identity()) {
        Ok(s) => s,
        Err(_) => panic!("no banner"),
    };
    assert_eq!(s.noise_pubkey, "AgICAgICAgICAgICAgICAgICAgICAgICAgICAgICAgI=");
    assert!(s.cert_fingerprint.starts_with("sha256:ba7816bf"));
    let shown: Vec<(TransportKind, &str, Option<&str>)> =
        s.transports.iter().map(|t| (t.kind, t.bind.as_str(), t.path.as_deref())).collect();
    assert_eq!(
        shown,
        vec![
            (TransportKind::Quic, "0.0.0.0:7101", None),
            (TransportKind::Wss, "0.0.0.0:7102", Some("/srp-tunnel")),
            (TransportKind::Tcp, "0.0.0.0:7100", None),
        ]
    );
    assert_eq!(s.user_count, 2);
}

#[test]
fn documents_carry_the_given_identity() {
    let text = write_srpc_toml(&config(), "KEY", "FP", &user("n", "t"), Some("h"));
    assert!(text.contains("server_noise_pubkey = \"KEY\"\nserver_cert_fingerprint = \"FP\"\n\n"));
    assert!(text.contains("username = \"n\"\ntoken = \"t\"\n\n"));
    let text = write_identity_card(&config(), "KEY", "FP");
    assert!(text.contains("  noise_public_key     : KEY\n  cert_fingerprint     : FP\n\n"));
    assert_eq!(
        not_found_message(&config().users, "<x>"),
        "user <x> not found; available users: alice, bob"
    );
    assert_eq!(enabled_transports(&config()).len(), 3);
}

// ----- text ----------------------------------------------------------------

#[test]
fn trimming_follows_unicode() {
    for c in (0..=0x10ffffu32).filter_map(char::from_u32) {
        assert_eq!(rs_srp::text::space(c), c.is_whitespace(), "{:?}", c);
    }
    for s in ["", " ", " a b ", "\u{2003}é\u{85}", "a", "\t\n"] {
        assert_eq!(trim(s), s.trim());
        assert_eq!(blank(s), s.trim().is_empty());
    }
}

#[test]
fn numbers_and_ports() {
    for n in [0u64, 7, 10, 1234567890, u64::MAX] {
        assert_eq!(number(n), n.to_string());
    }
    for s in ["0", "1", "65535", "65536", "+5", "-5", "", "+", "12a", "000001", "99999999999999"] {
        assert_eq!(parse_port(s), s.parse::<u16>().ok(), "{}", s);
    }
}

#[test]
fn pieces_of_text() {
    assert!(same_text("é", "é"));
    assert!(!same_text("é", "e"));
    assert!(!same_text("a", "ab"));
    assert!(starts_with("été", "ét"));
    assert!(!starts_with("ét", "été"));
    assert!(starts_with("x", ""));
    assert_eq!(to_chars("aé"), vec!['a', 'é']);
    let parts: Vec<String> = vec!["a".to_string(), String::new(), "c".to_string()];
    assert_eq!(join(&parts, ", "), parts.join(", "));
    assert_eq!(join(&Vec::new(), ", "), "");
    let mut out = "x".to_string();
    append_hex(&mut out, &[0, 0x0f, 0xa5, 0xff]);
    assert_eq!(out, "x000fa5ff");
    assert_eq!(first_repeat(&vec!["a", "b", "c"]), 3);
    assert_eq!(first_repeat(&vec!["a", "b", "b", "a"]), 2);
}
