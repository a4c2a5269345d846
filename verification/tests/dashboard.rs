use std::collections::VecDeque;

use rs_srp::identity::{ServerIdentity, StateDir};
use rs_srp::srpd::config::{
    validate, DashboardConfig, Security, ServerConfig, TransportListener, Transports, User,
    WssListener,
};
use rs_srp::srpd::dashboard::{
    apply, client_config, delete_user, list_users, overview, upsert_user, Stored, UserPayload,
};
use rs_srp::srpd::metrics::{
    ConnGuard, Counters, CountingStream, Metrics, ProxyCounters, ProxyHandle, Sample, HISTORY_CAP,
};
use rs_srp::proto::ControlMsg;
use rs_srp::srpd::server::{ServerAction, ServerSession};
use rs_srp::types::{Endpoint, ProxyKind};

fn metrics() -> Metrics {
    Metrics::new(None)
}

fn count(m: &mut Metrics, p: &mut ProxyCounters, bytes_in: u64, bytes_out: u64) {
    p.counters.add_in(bytes_in);
    p.counters.add_out(bytes_out);
    m.publish(p);
}

fn sample(t: u64) -> Sample {
    Sample { t, total_in: 0, total_out: 0 }
}

#[test]
fn counters_count() {
    let mut c = Counters::default();
    assert_eq!(c, Counters { bytes_in: 0, bytes_out: 0, conns: 0, active: 0 });
    c.add_in(3);
    c.add_in(4);
    c.add_out(5);
    assert_eq!(c, Counters { bytes_in: 7, bytes_out: 5, conns: 0, active: 0 });
    c.add_in(u64::MAX);
    assert_eq!(c.bytes_in, 6);
}

#[test]
fn guards_count_connections() {
    let mut c = Counters::default();
    let a = ConnGuard::new(&mut c);
    let b = ConnGuard::new(&mut c);
    assert_eq!((c.conns, c.active), (2, 2));
    a.release(&mut c);
    assert_eq!((c.conns, c.active), (2, 1));
    c.add_in(9);
    b.release(&mut c);
    assert_eq!(c, Counters { bytes_in: 9, bytes_out: 0, conns: 2, active: 0 });
}

#[test]
fn streams_count_what_they_carry() {
    let s = CountingStream::new("inner", "counters");
    assert_eq!((s.inner, s.counters), ("inner", "counters"));
    let mut c = Counters::default();
    CountingStream::<&str, &str>::count_read(&mut c, 10, 25);
    CountingStream::<&str, &str>::count_read(&mut c, 5, 5);
    CountingStream::<&str, &str>::count_write(&mut c, 7);
    assert_eq!(c, Counters { bytes_in: 15, bytes_out: 7, conns: 0, active: 0 });
}

#[test]
fn tunnels_get_increasing_ids() {
    let mut m = metrics();
    assert_eq!(m.register_tunnel("alice", "tcp", "1.2.3.4:5".to_string(), 0), 1);
    assert_eq!(m.register_tunnel("bob", "quic", "1.2.3.4:6".to_string(), 0), 2);
    m.unregister_tunnel(2);
    m.unregister_tunnel(77);
    assert_eq!(m.register_tunnel("bob", "wss", "1.2.3.4:7".to_string(), 0), 3);
    let ids: Vec<u64> = m.tunnels(0).iter().map(|t| t.id).collect();
    assert_eq!(ids, vec![1, 3]);
}

#[test]
fn snapshots_show_tunnels_and_proxies() {
    let mut m = metrics();
    let id = m.register_tunnel("alice", "tcp", "1.2.3.4:5".to_string(), 2_500_000_000);
    let mut h = m.register_proxy(id, "ssh", ProxyKind::Tcp, 20022);
    let k = m.register_proxy(id, "dns", ProxyKind::Udp, 53);
    assert_eq!(h.handle, Some(ProxyHandle { tunnel: id, index: 0 }));
    assert_eq!(k.handle, Some(ProxyHandle { tunnel: id, index: 1 }));
    assert_eq!(h.counters, Counters::default());
    count(&mut m, &mut h, 10, 20);
    let guard = ConnGuard::new(&mut h.counters);
    m.publish(&h);
    let views = m.tunnels(5_499_999_999);
    assert_eq!(views.len(), 1);
    let t = &views[0];
    assert_eq!((t.id, t.user.as_str(), t.transport.as_str()), (1, "alice", "tcp"));
    assert_eq!(t.peer, "1.2.3.4:5");
    assert_eq!(t.uptime_secs, 2);
    assert_eq!(t.proxies.len(), 2);
    let p = &t.proxies[0];
    assert_eq!((p.name.as_str(), p.kind.as_str(), p.remote_port), ("ssh", "tcp", 20022));
    assert_eq!((p.bytes_in, p.bytes_out, p.conns, p.active), (10, 20, 1, 1));
    assert_eq!(t.proxies[1].kind, "udp");
    guard.release(&mut h.counters);
    m.publish(&h);
    assert_eq!(m.tunnels(5_500_000_000)[0].uptime_secs, 3);
    assert_eq!(m.tunnels(0)[0].uptime_secs, 0);
    assert_eq!(m.tunnels(0)[0].proxies[0].active, 0);
}

#[test]
fn totals_survive_disconnects() {
    let mut m = metrics();
    let a = m.register_tunnel("a", "tcp", String::new(), 0);
    let b = m.register_tunnel("b", "tcp", String::new(), 0);
    let mut pa = m.register_proxy(a, "x", ProxyKind::Tcp, 1);
    let mut pa2 = m.register_proxy(a, "y", ProxyKind::Tcp, 2);
    let mut pb = m.register_proxy(b, "z", ProxyKind::Tcp, 3);
    count(&mut m, &mut pa, 1, 10);
    count(&mut m, &mut pa2, 2, 20);
    count(&mut m, &mut pb, 4, 40);
    assert!(m.totals_fit());
    assert_eq!(m.totals(), (7, 70));
    m.unregister_tunnel(a);
    assert_eq!(m.totals(), (7, 70));
    // The counters outlive the tunnel, but nothing shows them any more.
    count(&mut m, &mut pa, 100, 100);
    assert_eq!((pa.counters.bytes_in, pa.counters.bytes_out), (101, 110));
    assert_eq!(m.totals(), (7, 70));
    count(&mut m, &mut pb, 1, 1);
    assert_eq!(m.totals(), (8, 71));
    m.unregister_tunnel(b);
    assert_eq!(m.totals(), (8, 71));
    assert!(m.tunnels(0).is_empty());
}

#[test]
fn totals_that_do_not_fit_are_noticed() {
    let mut m = metrics();
    let a = m.register_tunnel("a", "tcp", String::new(), 0);
    let mut x = m.register_proxy(a, "x", ProxyKind::Tcp, 1);
    let mut y = m.register_proxy(a, "y", ProxyKind::Tcp, 2);
    count(&mut m, &mut x, u64::MAX, 0);
    assert!(m.totals_fit());
    assert_eq!(m.totals(), (u64::MAX, 0));
    count(&mut m, &mut y, 1, 0);
    assert!(!m.totals_fit());
}

#[test]
fn a_proxy_of_an_unknown_tunnel_gets_counters_that_nothing_shows() {
    let mut m = metrics();
    let mut p = m.register_proxy(1, "x", ProxyKind::Tcp, 1);
    assert_eq!(p, ProxyCounters { handle: None, counters: Counters::default() });
    count(&mut m, &mut p, 3, 4);
    assert_eq!(p.counters, Counters { bytes_in: 3, bytes_out: 4, conns: 0, active: 0 });
    assert_eq!(m.totals(), (0, 0));
    // Not even when a tunnel gets that id later.
    let a = m.register_tunnel("a", "tcp", String::new(), 0);
    assert_eq!(a, 1);
    let y = m.register_proxy(a, "y", ProxyKind::Tcp, 2);
    count(&mut m, &mut p, 1, 1);
    assert_eq!(m.totals(), (0, 0));
    m.publish(&y);
    assert_eq!(m.tunnels(0)[0].proxies.len(), 1);
}

#[test]
fn samples_are_taken_from_the_totals() {
    let mut m = Metrics::new(Some(VecDeque::from(vec![sample(1)])));
    let a = m.register_tunnel("a", "tcp", String::new(), 0);
    let mut x = m.register_proxy(a, "x", ProxyKind::Tcp, 1);
    count(&mut m, &mut x, 3, 4);
    m.sample(17);
    assert_eq!(m.history(), vec![sample(1), Sample { t: 17, total_in: 3, total_out: 4 }]);
}

#[test]
fn totals_go_on_from_the_loaded_history() {
    let mut m = metrics();
    let a = m.register_tunnel("a", "tcp", String::new(), 0);
    let mut x = m.register_proxy(a, "x", ProxyKind::Tcp, 1);
    count(&mut m, &mut x, 30, 40);
    m.sample(1);
    m.unregister_tunnel(a);
    m.sample(2);

    let mut restarted = Metrics::new(Some(m.history().into()));
    assert_eq!(restarted.history(), m.history());
    assert!(restarted.tunnels(0).is_empty());
    assert_eq!(restarted.totals(), (30, 40));
    restarted.sample(3);
    let b = restarted.register_tunnel("b", "quic", String::new(), 0);
    let mut y = restarted.register_proxy(b, "y", ProxyKind::Udp, 2);
    count(&mut restarted, &mut y, 1, 2);
    restarted.sample(4);
    assert_eq!(
        restarted.history(),
        vec![
            Sample { t: 1, total_in: 30, total_out: 40 },
            Sample { t: 2, total_in: 30, total_out: 40 },
            Sample { t: 3, total_in: 30, total_out: 40 },
            Sample { t: 4, total_in: 31, total_out: 42 },
        ]
    );

    // No history, whether missing or unreadable, is an empty one.
    assert!(Metrics::new(None).history().is_empty());
    assert_eq!(Metrics::new(None).totals(), (0, 0));
}

#[test]
fn the_history_keeps_the_newest_samples() {
    assert_eq!(HISTORY_CAP, 2048);
    let mut m = metrics();
    for t in 0..2050 {
        m.sample(t);
    }
    let h = m.history();
    assert_eq!(h.len(), 2048);
    assert_eq!(h[0], sample(2));
    assert_eq!(h[2047], sample(2049));
    // A longer history from an earlier run is cut down at the first sample.
    let mut m = Metrics::new(Some((0..3000).map(sample).collect()));
    assert_eq!(m.history().len(), 3000);
    m.sample(3000);
    assert_eq!(m.history().len(), 2048);
    assert_eq!(m.history()[0], sample(953));
}

// ----- configuration edits ------------------------------------------------

fn user(name: &str, token: &str) -> User {
    User { name: name.to_string(), token: token.to_string(), allow_remote_ports: vec![] }
}

fn payload(name: &str, token: &str, ports: &[&str]) -> UserPayload {
    UserPayload {
        name: name.to_string(),
        token: token.to_string(),
        allow_remote_ports: ports.iter().map(|s| s.to_string()).collect(),
    }
}

fn any(port: u16) -> Endpoint {
    Endpoint { host: "0.0.0.0".to_string(), port }
}

fn config() -> ServerConfig {
    ServerConfig {
        public_host: Some("srp.example.com".to_string()),
        state_dir: "./state".to_string(),
        transports: Transports {
            tcp: Some(TransportListener { enabled: true, bind: any(7100) }),
            quic: Some(TransportListener { enabled: false, bind: any(7101) }),
            wss: Some(WssListener { enabled: true, bind: any(7102), path: "/p".to_string() }),
        },
        security: Security { server_secret: "s3cret".to_string() },
        users: vec![user("a", "ta"), user("b", "tb"), user("c", "tc")],
        dashboard: DashboardConfig::default(),
    }
}

fn names(cfg: &ServerConfig) -> Vec<&str> {
    cfg.users.iter().map(|u| u.name.as_str()).collect()
}

fn identity() -> ServerIdentity {
    let mut dir = StateDir {
        tls_cert: Some("-----BEGIN X-----\nYWJj\n-----END X-----\n".to_string()),
        tls_key: Some(String::new()),
        noise_priv: Some(vec![1; 32]),
        noise_pub: Some(vec![2; 32]),
    };
    match ServerIdentity::load_or_create(&mut dir) {
        Ok(id) => id,
        Err(_) => panic!("no identity"),
    }
}

#[test]
fn users_are_listed_in_order() {
    let mut cfg = config();
    cfg.users[1].allow_remote_ports = vec!["1-2".to_string(), "3".to_string()];
    let users = list_users(&cfg);
    assert_eq!(users.len(), 3);
    assert_eq!(users[1].name, "b");
    assert_eq!(users[1].token, "tb");
    assert_eq!(users[1].allow_remote_ports, vec!["1-2", "3"]);
}

#[test]
fn a_new_user_is_added_last() {
    let mut cfg = config();
    assert!(upsert_user(&mut cfg, payload("d", "td", &["20000-21000"])).is_ok());
    assert_eq!(names(&cfg), vec!["a", "b", "c", "d"]);
    assert_eq!(cfg.users[3].token, "td");
    assert_eq!(cfg.users[3].allow_remote_ports, vec!["20000-21000"]);
    assert!(validate(&cfg).is_ok());
}

#[test]
fn an_existing_user_is_replaced_and_moves_last() {
    let mut cfg = config();
    assert!(upsert_user(&mut cfg, payload("a", "new", &[])).is_ok());
    assert_eq!(names(&cfg), vec!["b", "c", "a"]);
    assert_eq!(cfg.users[2].token, "new");
    assert!(validate(&cfg).is_ok());
}

#[test]
fn incomplete_users_are_refused() {
    let mut cfg = config();
    for (p, body) in [
        (payload("  ", "", &["x"]), "user name is required"),
        (payload("d", " ", &["x"]), "token is required"),
        (payload("d", "t", &["1", "x", "y"]), "invalid port range: \"x\""),
    ] {
        let reply = upsert_user(&mut cfg, p).unwrap_err();
        assert_eq!(reply.status, 400);
        assert_eq!(reply.body, body);
        assert_eq!(names(&cfg), vec!["a", "b", "c"]);
    }
}

#[test]
fn users_are_deleted_by_name() {
    let mut cfg = config();
    assert!(delete_user(&mut cfg, "b").is_ok());
    assert_eq!(names(&cfg), vec!["a", "c"]);
    let reply = delete_user(&mut cfg, "b").unwrap_err();
    assert_eq!(reply.status, 404);
    assert_eq!(reply.body, "user \"b\" not found");
    assert_eq!(names(&cfg), vec!["a", "c"]);
    cfg.users.push(user("a", "again"));
    assert!(delete_user(&mut cfg, "a").is_ok());
    assert_eq!(names(&cfg), vec!["c"]);
}

fn can_log_in(cfg: &ServerConfig, name: &str, token: &str) -> bool {
    let login = ControlMsg::Login { username: name.to_string(), token: token.to_string() };
    matches!(
        ServerSession::new().on_message(cfg, login),
        ServerAction::Send(ControlMsg::LoginOk)
    )
}

#[test]
fn edits_decide_who_can_log_in() {
    let mut cfg = config();
    assert!(can_log_in(&cfg, "a", "ta"));
    assert!(upsert_user(&mut cfg, payload("a", "new", &[])).is_ok());
    assert!(can_log_in(&cfg, "a", "new"));
    assert!(!can_log_in(&cfg, "a", "ta"));
    assert!(can_log_in(&cfg, "b", "tb"));
    assert!(delete_user(&mut cfg, "a").is_ok());
    assert!(!can_log_in(&cfg, "a", "new"));
    assert!(can_log_in(&cfg, "b", "tb"));
    assert!(can_log_in(&cfg, "c", "tc"));
}

#[test]
fn the_overview_shows_what_is_enabled() {
    let mut m = metrics();
    m.register_tunnel("a", "tcp", "peer".to_string(), 0);
    let o = overview(&config(), &identity(), m.tunnels(0));
    assert_eq!(o.public_host.as_deref(), Some("srp.example.com"));
    assert_eq!(o.noise_pubkey, "AgICAgICAgICAgICAgICAgICAgICAgICAgICAgICAgI=");
    assert_eq!(
        o.cert_fingerprint,
        "sha256:ba7816bf8f01cfea414140de5dae2223b00361a396177a9cb410ff61f20015ad"
    );
    let shown: Vec<(&str, &str)> =
        o.transports.iter().map(|t| (t.kind.as_str(), t.bind.as_str())).collect();
    assert_eq!(shown, vec![("tcp", "0.0.0.0:7100"), ("wss", "0.0.0.0:7102 /p")]);
    assert_eq!(o.user_count, 3);
    assert_eq!(o.tunnels.len(), 1);
    let mut cfg = config();
    cfg.public_host = None;
    cfg.transports.quic = Some(TransportListener { enabled: true, bind: any(7101) });
    let o = overview(&cfg, &identity(), vec![]);
    assert_eq!(o.public_host, None);
    assert_eq!(o.transports[1].kind, "quic");
    assert_eq!(o.transports[1].bind, "0.0.0.0:7101");
}

#[test]
fn the_overview_bears_with_a_missing_fingerprint() {
    let mut dir = StateDir {
        tls_cert: Some(String::new()),
        tls_key: Some(String::new()),
        noise_priv: Some(vec![]),
        noise_pub: Some(vec![]),
    };
    let id = match ServerIdentity::load_or_create(&mut dir) {
        Ok(id) => id,
        Err(_) => panic!("no identity"),
    };
    let o = overview(&config(), &id, vec![]);
    assert_eq!(o.cert_fingerprint, "");
    assert_eq!(o.noise_pubkey, "");
    let reply = client_config(&config(), &id, "a", None);
    assert_eq!(reply.status, 400);
    assert_eq!(reply.body, "decoding the stored TLS certificate");
}

#[test]
fn client_configurations_are_served() {
    let reply = client_config(&config(), &identity(), "b", Some("h"));
    assert_eq!(reply.status, 200);
    assert!(reply.body.contains("server_host = \"h\"\n"));
    assert!(reply.body.contains("username = \"b\"\ntoken = \"tb\"\n"));
    let reply = client_config(&config(), &identity(), "x", None);
    assert_eq!(reply.status, 400);
    assert_eq!(reply.body, "user \"x\" not found; available users: a, b, c");
}

#[test]
fn edits_take_effect_only_when_stored() {
    let (swap, reply) = apply(Stored::Done);
    assert!(swap);
    assert_eq!((reply.status, reply.body.as_str()), (200, "ok"));
    let (swap, reply) = apply(Stored::NotSerialized("why".to_string()));
    assert!(!swap);
    assert_eq!((reply.status, reply.body.as_str()), (500, "serializing config: why"));
    let (swap, reply) = apply(Stored::NotWritten("why".to_string()));
    assert!(!swap);
    assert_eq!((reply.status, reply.body.as_str()), (500, "writing config file: why"));
}
