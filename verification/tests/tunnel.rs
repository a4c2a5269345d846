use rs_srp::proto::ControlMsg;
use rs_srp::srpc::client::{
    dial, find_proxy, login_rejected_message, Attempts, ClientAction, ClientError, ClientPhase,
    ClientSession, Dial,
};
use rs_srp::srpc::config::{
    ClientConfig, ClientQuic, ClientSection, ClientSecurity, ClientTcp, ClientTransports,
    ClientWss, ProxyRule,
};
use rs_srp::srpc::link::{
    Beat, Heartbeat, Link, LinkAction, LinkEvent, DEAD_AFTER_SECS, MAX_WAIT_SECS, PING_EVERY_SECS,
};
use rs_srp::srpd::config::{
    validate, DashboardConfig, Security, ServerConfig, TransportListener, Transports, User,
    WssListener,
};
use rs_srp::srpd::server::{
    data_head, port_allowed, register_proxy, tunnel_listeners, ServerAction, ServerSession,
};
use rs_srp::srpd::udp::{Delivery, Sessions};
use rs_srp::types::{Endpoint, ProxyKind, TransportKind};

fn user_with(ports: &[&str]) -> User {
    User {
        name: "u".to_string(),
        token: "t".to_string(),
        allow_remote_ports: ports.iter().map(|s| s.to_string()).collect(),
    }
}

fn rule(name: &str, kind: ProxyKind, remote_port: u16) -> ProxyRule {
    ProxyRule {
        name: name.to_string(),
        kind,
        local_addr: Endpoint { host: "127.0.0.1".to_string(), port: 22 },
        remote_port,
    }
}

fn client_config(token: &str, proxies: Vec<ProxyRule>) -> ClientConfig {
    ClientConfig {
        client: ClientSection {
            server_host: "host".to_string(),
            transport_priority: vec![TransportKind::Wss, TransportKind::Tcp, TransportKind::Quic],
            server_noise_pubkey: "k".to_string(),
            server_cert_fingerprint: "f".to_string(),
            transports: ClientTransports {
                tcp: Some(ClientTcp { port: 7100 }),
                quic: Some(ClientQuic { port: 7101 }),
                wss: Some(ClientWss { port: 7102, path: "/p".to_string() }),
            },
        },
        security: ClientSecurity {
            server_secret: "s".to_string(),
            username: "u".to_string(),
            token: token.to_string(),
        },
        proxies,
    }
}

fn server_config(tcp_enabled: bool) -> ServerConfig {
    ServerConfig {
        public_host: None,
        state_dir: "s".to_string(),
        transports: Transports {
            tcp: Some(TransportListener {
                enabled: tcp_enabled,
                bind: Endpoint { host: "0.0.0.0".to_string(), port: 7100 },
            }),
            quic: None,
            wss: None,
        },
        security: Security { server_secret: "s".to_string() },
        users: vec![user_with(&["20000-21000", "8080"])],
        dashboard: DashboardConfig::default(),
    }
}

#[test]
fn port_permission_respects_ranges() {
    let u = user_with(&["20000-21000", "8080"]);
    assert!(port_allowed(&u, 20000));
    assert!(port_allowed(&u, 20500));
    assert!(port_allowed(&u, 21000));
    assert!(port_allowed(&u, 8080));
    assert!(!port_allowed(&u, 19999));
    assert!(!port_allowed(&u, 9090));
}

#[test]
fn empty_permit_list_denies_all() {
    assert!(!port_allowed(&user_with(&[]), 8080));
}

#[test]
fn entries_that_are_no_ranges_allow_nothing() {
    assert!(!port_allowed(&user_with(&["x", "9-1", ""]), 5));
    assert!(port_allowed(&user_with(&["x", "1-9"]), 5));
}

#[test]
fn registrations_are_decided() {
    let u = user_with(&["20000-21000"]);
    assert!(register_proxy(&u, 20022).is_ok());
    assert_eq!(
        register_proxy(&u, 80).unwrap_err(),
        "remote port 80 is not permitted for user \"u\""
    );
}

#[test]
fn both_kinds_of_proxies_go_live() {
    for kind in [ProxyKind::Tcp, ProxyKind::Udp] {
        let cfg = server_config(true);
        let mut s = ServerSession::new();
        let login = ControlMsg::Login { username: "u".to_string(), token: "t".to_string() };
        s.on_message(&cfg, login);
        let ask = ControlMsg::RegisterProxy { name: "dns".to_string(), kind, remote_port: 20022 };
        match s.on_message(&cfg, ask) {
            ServerAction::Bind { name, kind: asked, remote_port } => {
                assert_eq!(name, "dns");
                assert_eq!(asked, kind);
                assert_eq!(remote_port, 20022);
            }
            other => panic!("{:?}", other),
        }
        assert!(matches!(
            s.on_bound(true),
            ServerAction::Send(ControlMsg::RegisterOk { name, remote_port: 20022 }) if name == "dns"
        ));
    }
}

#[test]
fn every_enabled_transport_is_served() {
    let only_tcp = tunnel_listeners(&server_config(true)).unwrap();
    assert_eq!(only_tcp.len(), 1);
    assert_eq!(only_tcp[0].kind, TransportKind::Tcp);
    assert_eq!(only_tcp[0].bind, "0.0.0.0:7100");

    let mut cfg = server_config(false);
    assert_eq!(
        tunnel_listeners(&cfg).unwrap_err().message(),
        "at least one transport ([transports.tcp], [transports.quic], or [transports.wss]) must be present and enabled"
    );
    assert!(validate(&cfg).is_err());

    cfg.transports.tcp = None;
    cfg.transports.quic = Some(TransportListener {
        enabled: true,
        bind: Endpoint { host: "0.0.0.0".to_string(), port: 7101 },
    });
    cfg.transports.wss = Some(WssListener {
        enabled: true,
        bind: Endpoint { host: "[::]".to_string(), port: 7102 },
        path: "/p".to_string(),
    });
    assert!(validate(&cfg).is_ok());
    let served: Vec<(TransportKind, String, Option<String>)> =
        tunnel_listeners(&cfg).unwrap().into_iter().map(|t| (t.kind, t.bind, t.path)).collect();
    assert_eq!(
        served,
        vec![
            (TransportKind::Quic, "0.0.0.0:7101".to_string(), None),
            (TransportKind::Wss, "[::]:7102".to_string(), Some("/p".to_string())),
        ]
    );
}

#[test]
fn data_heads_name_the_proxy() {
    assert_eq!(data_head("ssh").proxy, "ssh");
}

/// Lets a client and a server talk until the client serves or gives up; every
/// bind works but that of port 20001. Gives the client's session, the ports
/// bound, and the error.
fn talk(ccfg: &ClientConfig, scfg: &ServerConfig) -> (ClientSession, Vec<u16>, Option<ClientError>) {
    let (mut client, mut msg) = ClientSession::start(ccfg);
    let mut server = ServerSession::new();
    let mut bound = Vec::new();
    loop {
        let mut action = server.on_message(scfg, msg);
        if let ServerAction::Bind { remote_port, .. } = action {
            let works = remote_port != 20001;
            if works {
                bound.push(remote_port);
            }
            action = server.on_bound(works);
        }
        let reply = match action {
            ServerAction::Send(reply) => reply,
            ServerAction::SendAndClose(reply) => reply,
            other => panic!("no reply: {:?}", other),
        };
        match client.on_message(ccfg, reply) {
            ClientAction::Send(next) => msg = next,
            ClientAction::Ready => return (client, bound, None),
            ClientAction::Fail(e) => return (client, bound, Some(e)),
            ClientAction::Nothing => panic!("nothing"),
        }
    }
}

#[test]
fn a_configured_client_gets_through() {
    let ccfg = client_config(
        "t",
        vec![
            rule("ok", ProxyKind::Tcp, 20000),
            rule("busy", ProxyKind::Tcp, 20001),
            rule("udp", ProxyKind::Udp, 20002),
            rule("forbidden", ProxyKind::Tcp, 1),
            rule("web", ProxyKind::Tcp, 8080),
        ],
    );
    let (client, bound, err) = talk(&ccfg, &server_config(true));
    assert!(err.is_none());
    assert_eq!(client, ClientSession { phase: ClientPhase::Serving, active: 3 });
    assert_eq!(bound, vec![20000, 20002, 8080]);
}

#[test]
fn a_client_without_proxies_serves_at_once() {
    let (client, bound, err) = talk(&client_config("t", vec![]), &server_config(true));
    assert!(err.is_none());
    assert_eq!(client, ClientSession { phase: ClientPhase::Serving, active: 0 });
    assert!(bound.is_empty());
}

#[test]
fn a_client_with_another_token_is_rejected() {
    let ccfg = client_config("T", vec![rule("ok", ProxyKind::Tcp, 20000)]);
    let (_, bound, err) = talk(&ccfg, &server_config(true));
    match err {
        Some(ClientError::LoginRejected(reason)) => {
            assert_eq!(reason, "invalid username or token");
            assert_eq!(
                login_rejected_message(&reason),
                "login rejected by server: invalid username or token"
            );
        }
        other => panic!("not rejected: {:?}", other),
    }
    assert!(bound.is_empty());
}

#[test]
fn the_server_answers_in_kind() {
    let cfg = server_config(true);
    let mut s = ServerSession::new();
    assert_eq!(s.user(), None);
    let login = ControlMsg::Login { username: "u".to_string(), token: "t".to_string() };
    assert!(matches!(s.on_message(&cfg, login), ServerAction::Send(ControlMsg::LoginOk)));
    assert_eq!(s.user(), Some(0));
    assert!(matches!(
        s.on_message(&cfg, ControlMsg::Ping),
        ServerAction::Send(ControlMsg::Pong)
    ));
    assert!(matches!(s.on_message(&cfg, ControlMsg::Pong), ServerAction::Nothing));
    assert!(matches!(s.on_message(&cfg, ControlMsg::LoginOk), ServerAction::Nothing));
    let ask = |port: u16| ControlMsg::RegisterProxy {
        name: "ssh".to_string(),
        kind: ProxyKind::Tcp,
        remote_port: port,
    };
    match s.on_message(&cfg, ask(7)) {
        ServerAction::Send(ControlMsg::RegisterErr { name, reason }) => {
            assert_eq!(name, "ssh");
            assert_eq!(reason, "remote port 7 is not permitted for user \"u\"");
        }
        other => panic!("{:?}", other),
    }
    match s.on_message(&cfg, ask(8080)) {
        ServerAction::Bind { name, kind, remote_port } => {
            assert_eq!(name, "ssh");
            assert_eq!(kind, ProxyKind::Tcp);
            assert_eq!(remote_port, 8080);
        }
        other => panic!("{:?}", other),
    }
    match s.on_bound(false) {
        ServerAction::Send(ControlMsg::RegisterErr { name, reason }) => {
            assert_eq!(name, "ssh");
            assert_eq!(reason, "binding public port 8080");
        }
        other => panic!("{:?}", other),
    }
    assert!(matches!(s.on_message(&cfg, ask(8080)), ServerAction::Bind { .. }));
    match s.on_bound(true) {
        ServerAction::Send(ControlMsg::RegisterOk { name, remote_port }) => {
            assert_eq!(name, "ssh");
            assert_eq!(remote_port, 8080);
        }
        other => panic!("{:?}", other),
    }
    assert!(matches!(s.on_closed(), ServerAction::Close));
}

#[test]
fn tunnels_begin_with_a_login() {
    let cfg = server_config(true);
    let mut s = ServerSession::new();
    assert!(matches!(
        s.on_message(&cfg, ControlMsg::Ping),
        ServerAction::ExpectedLogin(ControlMsg::Ping)
    ));
}

#[test]
fn name_and_token_must_belong_together() {
    let mut cfg = server_config(true);
    let mut other = user_with(&["1"]);
    other.name = "v".to_string();
    other.token = "w".to_string();
    cfg.users.push(other);
    for (name, token, position) in
        [("u", "t", Some(0)), ("v", "w", Some(1)), ("u", "w", None), ("v", "t", None), ("", "", None)]
    {
        let mut s = ServerSession::new();
        let login =
            ControlMsg::Login { username: name.to_string(), token: token.to_string() };
        let action = s.on_message(&cfg, login);
        assert_eq!(matches!(action, ServerAction::Send(ControlMsg::LoginOk)), position.is_some());
        assert_eq!(matches!(action, ServerAction::SendAndClose(_)), position.is_none());
        assert_eq!(s.user(), position);
    }
}

#[test]
fn the_client_gives_up_on_unexpected_replies() {
    let cfg = client_config("t", vec![rule("ok", ProxyKind::Tcp, 20000)]);
    let (mut c, _) = ClientSession::start(&cfg);
    assert!(matches!(
        c.on_message(&cfg, ControlMsg::Pong),
        ClientAction::Fail(ClientError::UnexpectedLoginReply(ControlMsg::Pong))
    ));
    assert!(matches!(
        c.on_message(&cfg, ControlMsg::LoginOk),
        ClientAction::Send(ControlMsg::RegisterProxy { .. })
    ));
    assert!(matches!(
        c.on_message(&cfg, ControlMsg::LoginOk),
        ClientAction::Fail(ClientError::UnexpectedRegistrationReply(ControlMsg::LoginOk))
    ));
}

#[test]
fn the_client_answers_pings_and_ignores_the_rest() {
    let cfg = client_config("t", vec![]);
    let (mut c, login) = ClientSession::start(&cfg);
    assert!(matches!(login, ControlMsg::Login { username, token } if username == "u" && token == "t"));
    assert!(matches!(c.on_message(&cfg, ControlMsg::LoginOk), ClientAction::Ready));
    assert!(matches!(
        c.on_message(&cfg, ControlMsg::Ping),
        ClientAction::Send(ControlMsg::Pong)
    ));
    assert!(matches!(c.on_message(&cfg, ControlMsg::LoginOk), ClientAction::Nothing));
}

#[test]
fn transports_are_tried_in_priority_order() {
    let cfg = client_config("t", vec![]);
    let mut attempts = Attempts::new();
    let mut tried = Vec::new();
    while let Some(kind) = attempts.current(&cfg.client) {
        tried.push(kind);
        attempts.record_failure(&cfg.client);
    }
    assert_eq!(tried, cfg.client.transport_priority);
}

#[test]
fn dialling_follows_the_blocks() {
    let mut cfg = client_config("t", vec![]);
    assert!(matches!(
        dial(&cfg.client, TransportKind::Tcp),
        Ok(Dial::Tcp { addr }) if addr == "host:7100"
    ));
    assert!(matches!(
        dial(&cfg.client, TransportKind::Quic),
        Ok(Dial::Quic { host, port: 7101 }) if host == "host"
    ));
    assert!(matches!(
        dial(&cfg.client, TransportKind::Wss),
        Ok(Dial::Wss { host, port: 7102, path }) if host == "host" && path == "/p"
    ));
    cfg.client.transports.tcp = None;
    cfg.client.transports.quic = None;
    cfg.client.transports.wss = None;
    assert_eq!(
        dial(&cfg.client, TransportKind::Tcp).unwrap_err().message(),
        "no [client.transports.tcp] block"
    );
    assert_eq!(
        dial(&cfg.client, TransportKind::Quic).unwrap_err().message(),
        "no [client.transports.quic] block"
    );
    assert_eq!(
        dial(&cfg.client, TransportKind::Wss).unwrap_err().message(),
        "no [client.transports.wss] block"
    );
}

#[test]
fn data_substreams_find_their_proxy() {
    let cfg = client_config(
        "t",
        vec![
            rule("a", ProxyKind::Tcp, 1),
            rule("b", ProxyKind::Udp, 2),
            rule("b", ProxyKind::Tcp, 3),
        ],
    );
    assert_eq!(find_proxy(&cfg, "a").unwrap().remote_port, 1);
    assert_eq!(find_proxy(&cfg, "b").unwrap().remote_port, 2);
    assert_eq!(
        find_proxy(&cfg, "c\n").unwrap_err(),
        "server referenced unknown proxy \"c\\n\""
    );
}

#[test]
fn the_first_transport_that_connects_is_kept() {
    let cfg = client_config("t", vec![]);
    let connects = [false, true, true];
    let mut attempts = Attempts::new();
    while attempts.current(&cfg.client).is_some() && !connects[attempts.failed] {
        attempts.record_failure(&cfg.client);
    }
    assert_eq!(attempts.current(&cfg.client), Some(TransportKind::Tcp));
}

#[test]
fn a_silent_tunnel_is_dead() {
    let mut h = Heartbeat::new(1000);
    assert_eq!(h.on_tick(1000), Beat::Wait(PING_EVERY_SECS));
    assert_eq!(h.on_tick(1000 + PING_EVERY_SECS), Beat::Ping);
    assert_eq!(h.on_tick(1000 + PING_EVERY_SECS), Beat::Wait(PING_EVERY_SECS));
    h.on_message(1020);
    assert_eq!(h.on_tick(1000 + DEAD_AFTER_SECS), Beat::Ping);
    assert_eq!(h.on_tick(1020 + DEAD_AFTER_SECS - 6), Beat::Wait(1));
    assert_eq!(h.on_tick(1020 + DEAD_AFTER_SECS - 1), Beat::Ping);
    assert_eq!(h.on_tick(1020 + DEAD_AFTER_SECS), Beat::Dead);
    // The end of silence comes before the next ping.
    let mut h = Heartbeat { heard: 0, pinged: 40 };
    assert_eq!(h.on_tick(41), Beat::Wait(4));
}

#[test]
fn reconnecting_backs_off_exponentially() {
    let mut link = Link::new();
    assert_eq!(link.on_event(LinkEvent::Up), LinkAction::Serve);
    let mut waits = Vec::new();
    let mut event = LinkEvent::Lost;
    for _ in 0..8 {
        match link.on_event(event) {
            LinkAction::Retry { after, attempts } => {
                waits.push(after);
                assert_eq!(attempts, Attempts::new());
            }
            other => panic!("{:?}", other),
        }
        event = LinkEvent::Unreachable;
    }
    assert_eq!(waits, vec![1, 2, 4, 8, 16, 32, MAX_WAIT_SECS, MAX_WAIT_SECS]);
    assert_eq!(link.on_event(LinkEvent::Up), LinkAction::Serve);
    assert!(matches!(link.on_event(LinkEvent::Lost), LinkAction::Retry { after: 1, .. }));
}

#[test]
fn clients_give_up_when_they_never_got_in() {
    let mut link = Link::new();
    assert_eq!(link.on_event(LinkEvent::Unreachable), LinkAction::GiveUp);
    let mut link = Link::new();
    link.on_event(LinkEvent::Up);
    assert_eq!(link.on_event(LinkEvent::Refused), LinkAction::GiveUp);
}

#[test]
fn every_udp_peer_has_its_own_session() {
    let mut t = Sessions::new();
    assert!(t.ids_left());
    assert_eq!(t.deliver("192.0.2.1:5000", 10), Delivery::Open(0));
    assert_eq!(t.deliver("192.0.2.2:5000", 11), Delivery::Open(1));
    assert_eq!(t.deliver("192.0.2.1:5000", 12), Delivery::Through(0));
    assert_eq!(t.reply(1, 20).as_deref(), Some("192.0.2.2:5000"));
    assert_eq!(t.reply(0, 20).as_deref(), Some("192.0.2.1:5000"));
    t.close(0);
    assert_eq!(t.reply(0, 21), None);
    assert_eq!(t.deliver("192.0.2.1:5000", 22), Delivery::Open(2));
}

#[test]
fn idle_udp_sessions_are_dropped() {
    let mut t = Sessions::new();
    t.deliver("a", 0);
    t.deliver("b", 0);
    t.deliver("c", 30);
    t.reply(0, 20);
    // What the peer sends does not keep the session: only the local service does.
    t.deliver("b", 59);
    assert_eq!(t.expire(59), Vec::<u64>::new());
    assert_eq!(t.expire(60), vec![1]);
    assert_eq!(t.expire(90), vec![0, 2]);
    assert_eq!(t.deliver("b", 91), Delivery::Open(3));
}
