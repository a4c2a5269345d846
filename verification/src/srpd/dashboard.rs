//! Operations dashboard: live metrics and user management.
//!
//! The API serves an overview (server identity, transports, live tunnels),
//! traffic history, and user CRUD — edits are written back to the config file
//! and hot-reloaded.

use vstd::prelude::*;
use vstd::string::*;

use super::client_config::{self, render_srpc_toml};
use super::config::{self, parse_port_range, ServerConfig, User};
use super::metrics::TunnelView;
use super::server;
use crate::document;
use crate::identity::{self, ServerIdentity};
use crate::text::{self, blank, quoted, same_text};
use crate::types::TransportKind;

verus! {

// ── API types ──────────────────────────────────────────────────────────────

/// A transport that is enabled.
#[derive(Debug)]
pub struct TransportInfo {
    pub kind: String,
    pub bind: String,
}

/// What the overview shows.
#[derive(Debug)]
pub struct Overview {
    pub public_host: Option<String>,
    pub noise_pubkey: String,
    pub cert_fingerprint: String,
    pub transports: Vec<TransportInfo>,
    pub user_count: usize,
    pub tunnels: Vec<TunnelView>,
}

/// A user as the dashboard shows it.
#[derive(Debug)]
pub struct UserView {
    pub name: String,
    pub token: String,
    pub allow_remote_ports: Vec<String>,
}

/// A user as the dashboard is sent it.
#[derive(Debug)]
pub struct UserPayload {
    pub name: String,
    pub token: String,
    pub allow_remote_ports: Vec<String>,
}

/// A reply in plain text, with its HTTP status.
#[derive(Debug)]
pub struct Reply {
    pub status: u16,
    pub body: String,
}

pub const OK: u16 = 200;

pub const BAD_REQUEST: u16 = 400;

pub const NOT_FOUND: u16 = 404;

pub const INTERNAL_SERVER_ERROR: u16 = 500;

// ── Overview ───────────────────────────────────────────────────────────────

/// The transports that are enabled, in the order of the overview: tcp, quic, wss.
pub open spec fn shown_kinds(cfg: ServerConfig) -> Seq<TransportKind> {
    let tcp = if cfg.transports.on(TransportKind::Tcp) {
        seq![TransportKind::Tcp]
    } else {
        Seq::empty()
    };
    let quic = if cfg.transports.on(TransportKind::Quic) {
        seq![TransportKind::Quic]
    } else {
        Seq::empty()
    };
    let wss = if cfg.transports.on(TransportKind::Wss) {
        seq![TransportKind::Wss]
    } else {
        Seq::empty()
    };
    tcp + quic + wss
}

/// What the overview says a transport listens on: the address, and of the WSS
/// transport the path too.
pub open spec fn shown_bind(cfg: ServerConfig, kind: TransportKind) -> Seq<char> {
    match kind {
        TransportKind::Tcp => cfg.transports.tcp->0.bind.text(),
        TransportKind::Quic => cfg.transports.quic->0.bind.text(),
        TransportKind::Wss => cfg.transports.wss->0.bind.text() + " "@
            + cfg.transports.wss->0.path@,
    }
}

/// Lists the transports that are enabled: tcp, quic, wss.
pub fn shown_transports(cfg: &ServerConfig) -> (r: Vec<TransportInfo>)
    ensures
        r@.len() == shown_kinds(*cfg).len(),
        forall|i: int|
            0 <= i < r@.len() ==> (#[trigger] r@[i]).kind@ == shown_kinds(*cfg)[i].name()
                && r@[i].bind@ == shown_bind(*cfg, shown_kinds(*cfg)[i]),
        ({
            let t = cfg.transports;
            let quic = t.quic is Some && t.quic->0.enabled;
            let wss = t.wss is Some && t.wss->0.enabled;
            let tcp = t.tcp is Some && t.tcp->0.enabled;
            let wss_at = (if tcp {
                1int
            } else {
                0
            }) + (if quic {
                1int
            } else {
                0
            });
            &&& r@.len() == wss_at + (if wss {
                1int
            } else {
                0
            })
            &&& tcp ==> r@[0].kind@ == "tcp"@ && r@[0].bind@ == t.tcp->0.bind.host@ + ":"@
                + text::decimal(t.tcp->0.bind.port as nat)
            &&& quic ==> r@[wss_at - 1].kind@ == "quic"@ && r@[wss_at - 1].bind@
                == t.quic->0.bind.host@ + ":"@ + text::decimal(t.quic->0.bind.port as nat)
            &&& wss ==> r@[wss_at].kind@ == "wss"@ && r@[wss_at].bind@ == t.wss->0.bind.host@
                + ":"@ + text::decimal(t.wss->0.bind.port as nat) + " "@ + t.wss->0.path@
        }),
{
    let mut transports: Vec<TransportInfo> = Vec::new();
    if let Some(t) = &cfg.transports.tcp {
        if t.enabled {
            transports.push(TransportInfo { kind: "tcp".to_owned(), bind: t.bind.to_text() });
        }
    }
    if let Some(t) = &cfg.transports.quic {
        if t.enabled {
            transports.push(TransportInfo { kind: "quic".to_owned(), bind: t.bind.to_text() });
        }
    }
    if let Some(t) = &cfg.transports.wss {
        if t.enabled {
            let mut bind = t.bind.to_text();
            bind.append(" ");
            bind.append(t.path.as_str());
            transports.push(TransportInfo { kind: "wss".to_owned(), bind });
        }
    }
    transports
}

/// Collects the overview. A certificate without a fingerprint is shown as an
/// empty one.
pub fn overview(cfg: &ServerConfig, id: &ServerIdentity, tunnels: Vec<TunnelView>) -> (r: Overview)
    requires
        identity::encodable(id@.noise.1.len()),
    ensures
        r.public_host is Some <==> cfg.public_host is Some,
        r.public_host matches Some(h) ==> h@ == cfg.public_host->0@,
        r.noise_pubkey@ == identity::base64_text(id@.noise.1),
        r.cert_fingerprint@ == match identity::pem_der(id@.tls.0) {
            Some(der) => identity::fingerprint(der),
            None => Seq::empty(),
        },
        r.transports@.len() == shown_kinds(*cfg).len(),
        forall|i: int|
            0 <= i < r.transports@.len() ==> (#[trigger] r.transports@[i]).kind@ == shown_kinds(
                *cfg,
            )[i].name() && r.transports@[i].bind@ == shown_bind(*cfg, shown_kinds(*cfg)[i]),
        r.user_count == cfg.users@.len(),
        r.tunnels == tunnels,
        ({
            let t = cfg.transports;
            let quic = t.quic is Some && t.quic->0.enabled;
            let wss = t.wss is Some && t.wss->0.enabled;
            let tcp = t.tcp is Some && t.tcp->0.enabled;
            let wss_at = (if tcp {
                1int
            } else {
                0
            }) + (if quic {
                1int
            } else {
                0
            });
            &&& r.transports@.len() == wss_at + (if wss {
                1int
            } else {
                0
            })
            &&& tcp ==> r.transports@[0].kind@ == "tcp"@ && r.transports@[0].bind@ == t.tcp->0.bind.host@ + ":"@
                + text::decimal(t.tcp->0.bind.port as nat)
            &&& quic ==> r.transports@[wss_at - 1].kind@ == "quic"@ && r.transports@[wss_at - 1].bind@
                == t.quic->0.bind.host@ + ":"@ + text::decimal(t.quic->0.bind.port as nat)
            &&& wss ==> r.transports@[wss_at].kind@ == "wss"@ && r.transports@[wss_at].bind@ == t.wss->0.bind.host@
                + ":"@ + text::decimal(t.wss->0.bind.port as nat) + " "@ + t.wss->0.path@
        }),
{
    let public_host = match &cfg.public_host {
        Some(h) => Some(h.clone()),
        None => None,
    };
    let cert_fingerprint = match id.cert_fingerprint() {
        Ok(text) => text,
        Err(_) => String::new(),
    };
    Overview {
        public_host,
        noise_pubkey: id.noise_public_key_b64(),
        cert_fingerprint,
        transports: shown_transports(cfg),
        user_count: cfg.users.len(),
        tunnels,
    }
}

// ── Users ──────────────────────────────────────────────────────────────────

/// Copies a list of texts.
fn copy_texts(from: &Vec<String>) -> (r: Vec<String>)
    ensures
        text::texts(r@) == text::texts(from@),
        r@.len() == from@.len(),
        forall|k: int| 0 <= k < r@.len() ==> #[trigger] r@[k]@ == from@[k]@,
{
    let mut r: Vec<String> = Vec::new();
    let mut i: usize = 0;
    while i < from.len()
        invariant
            i <= from@.len(),
            r@.len() == i,
            forall|k: int| 0 <= k < i ==> #[trigger] r@[k]@ == from@[k]@,
        decreases from@.len() - i,
    {
        r.push(from[i].clone());
        i += 1;
    }
    assert(text::texts(r@) =~= text::texts(from@));
    r
}

/// Lists the users, in the order of the configuration.
pub fn list_users(cfg: &ServerConfig) -> (r: Vec<UserView>)
    ensures
        r@.len() == cfg.users@.len(),
        forall|i: int|
            0 <= i < r@.len() ==> {
                &&& (#[trigger] r@[i]).name@ == cfg.users@[i].name@
                &&& r@[i].token@ == cfg.users@[i].token@
                &&& text::texts(r@[i].allow_remote_ports@) == text::texts(
                    cfg.users@[i].allow_remote_ports@,
                )
                &&& r@[i].allow_remote_ports@.len() == cfg.users@[i].allow_remote_ports@.len()
                &&& forall|k: int|
                    0 <= k < r@[i].allow_remote_ports@.len() ==> (
                    #[trigger] r@[i].allow_remote_ports@[k])@ == cfg.users@[i].allow_remote_ports@[k]@
            },
{
    let mut r: Vec<UserView> = Vec::new();
    let mut i: usize = 0;
    while i < cfg.users.len()
        invariant
            i <= cfg.users@.len(),
            r@.len() == i,
            forall|k: int|
                0 <= k < i ==> {
                    &&& (#[trigger] r@[k]).name@ == cfg.users@[k].name@
                    &&& r@[k].token@ == cfg.users@[k].token@
                    &&& text::texts(r@[k].allow_remote_ports@) == text::texts(
                        cfg.users@[k].allow_remote_ports@,
                    )
                    &&& r@[k].allow_remote_ports@.len() == cfg.users@[k].allow_remote_ports@.len()
                    &&& forall|j: int|
                        0 <= j < r@[k].allow_remote_ports@.len() ==> (
                        #[trigger] r@[k].allow_remote_ports@[j])@
                            == cfg.users@[k].allow_remote_ports@[j]@
                },
        decreases cfg.users@.len() - i,
    {
        let u = &cfg.users[i];
        r.push(
            UserView {
                name: u.name.clone(),
                token: u.token.clone(),
                allow_remote_ports: copy_texts(&u.allow_remote_ports),
            },
        );
        i += 1;
    }
    r
}

/// The users with another name, in order.
pub open spec fn without(users: Seq<User>, name: Seq<char>) -> Seq<User>
    decreases users.len(),
{
    if users.len() == 0 {
        Seq::empty()
    } else if users.last().name@ == name {
        without(users.drop_last(), name)
    } else {
        without(users.drop_last(), name).push(users.last())
    }
}

/// Removes the users with that name.
fn remove_named(users: &mut Vec<User>, name: &str)
    ensures
        final(users)@ == without(old(users)@, name@),
        final(users)@ == old(users)@.filter(|u: User| u.name@ != name@),
{
    proof {
        removal_keeps_the_others_in_order(users@, name@, |u: User| u.name@ != name@);
    }
    let ghost all = users@;
    let ghost mut done: int = 0;
    let mut i: usize = 0;
    assert(all.take(0) =~= Seq::empty());
    assert(users@ =~= without(all.take(0), name@) + all.skip(0));
    while i < users.len()
        invariant
            0 <= done <= all.len(),
            i == without(all.take(done), name@).len(),
            users@ == without(all.take(done), name@) + all.skip(done),
        decreases all.len() - done,
    {
        assert(users@[i as int] == all[done]);
        assert(all.take(done + 1).drop_last() =~= all.take(done));
        if same_text(users[i].name.as_str(), name) {
            let _ = users.remove(i);
            assert(users@ =~= without(all.take(done + 1), name@) + all.skip(done + 1));
        } else {
            i += 1;
            assert(users@ =~= without(all.take(done + 1), name@) + all.skip(done + 1));
        }
        proof {
            done = done + 1;
        }
    }
    assert(all.take(done) =~= all);
    assert(users@ =~= without(all, name@));
}

/// Why a user is not taken, if it is not.
pub open spec fn payload_objection(p: UserPayload) -> Option<Seq<char>> {
    if text::trimmed(p.name@).len() == 0 {
        Some("user name is required"@)
    } else if text::trimmed(p.token@).len() == 0 {
        Some("token is required"@)
    } else if let Some(entry) = config::first_bad_entry(p.allow_remote_ports@) {
        Some("invalid port range: "@ + text::quoted_text(entry))
    } else {
        None
    }
}

/// What is said of an entry, given in quotes, that is not a port range.
pub fn invalid_range_message(quoted_entry: &str) -> (s: String)
    ensures
        s@ == "invalid port range: "@ + quoted_entry@,
{
    let mut s = "invalid port range: ".to_owned();
    s.append(quoted_entry);
    s
}

/// What is said of a user, whose name is given in quotes, who is not there.
pub fn no_such_user_message(quoted_name: &str) -> (s: String)
    ensures
        s@ == "user "@ + quoted_name@ + " not found"@,
{
    let mut s = "user ".to_owned();
    s.append(quoted_name);
    s.append(" not found");
    s
}

/// Whether `after` is `before` with other users.
pub open spec fn only_users_differ(before: ServerConfig, after: ServerConfig) -> bool {
    &&& after.public_host == before.public_host
    &&& after.state_dir == before.state_dir
    &&& after.transports == before.transports
    &&& after.security == before.security
    &&& after.dashboard == before.dashboard
}

/// Whether `after` is `before` with the user of `p` in place of all others of
/// that name.
pub open spec fn upserted(before: ServerConfig, after: ServerConfig, p: UserPayload) -> bool {
    &&& only_users_differ(before, after)
    &&& after.users@ == without(before.users@, p.name@).push(
        User { name: p.name, token: p.token, allow_remote_ports: p.allow_remote_ports },
    )
}

/// Adds a user, or replaces the one with that name; the user then stands last.
/// A user without a name or token, or with an entry that is not a port range, is
/// refused, and nothing changes.
pub fn upsert_user(cfg: &mut ServerConfig, p: UserPayload) -> (r: Result<(), Reply>)
    ensures
        r is Ok <==> payload_objection(p) is None,
        r is Ok ==> upserted(*old(cfg), *final(cfg), p),
        r matches Err(reply) ==> {
            &&& *final(cfg) == *old(cfg)
            &&& reply.status == BAD_REQUEST
            &&& Some(reply.body@) == payload_objection(p)
        },
        r is Ok <==> {
            &&& exists|k: int| 0 <= k < p.name@.len() && !text::is_space(#[trigger] p.name@[k])
            &&& exists|k: int| 0 <= k < p.token@.len() && !text::is_space(#[trigger] p.token@[k])
            &&& forall|i: int|
                0 <= i < p.allow_remote_ports@.len() ==> config::range_of(
                    #[trigger] p.allow_remote_ports@[i]@,
                ) is Range
        },
        r is Ok ==> {
            &&& final(cfg).users@ == old(cfg).users@.filter(|u: User| u.name@ != p.name@).push(
                final(cfg).users@.last(),
            )
            &&& final(cfg).users@.last().name@ == p.name@
            &&& final(cfg).users@.last().token@ == p.token@
            &&& final(cfg).users@.last().allow_remote_ports@ == p.allow_remote_ports@
            &&& final(cfg).public_host == old(cfg).public_host
            &&& final(cfg).state_dir == old(cfg).state_dir
            &&& final(cfg).transports == old(cfg).transports
            &&& final(cfg).security == old(cfg).security
            &&& final(cfg).dashboard == old(cfg).dashboard
        },
        r matches Err(reply) ==> reply.status == 400 && (reply.body@ == "user name is required"@
            || reply.body@ == "token is required"@ || exists|i: int|
            0 <= i < p.allow_remote_ports@.len() && !(config::range_of(
                #[trigger] p.allow_remote_ports@[i]@,
            ) is Range) && reply.body@ == "invalid port range: "@ + text::quoted_text(
                p.allow_remote_ports@[i]@,
            )),
{
    proof {
        payloads_are_taken_if_complete(p);
        removal_keeps_the_others_in_order(cfg.users@, p.name@, |u: User| u.name@ != p.name@);
    }
    if blank(p.name.as_str()) {
        return Err(Reply { status: BAD_REQUEST, body: "user name is required".to_owned() });
    }
    if blank(p.token.as_str()) {
        return Err(Reply { status: BAD_REQUEST, body: "token is required".to_owned() });
    }
    let mut i: usize = 0;
    assert(p.allow_remote_ports@.skip(0) =~= p.allow_remote_ports@);
    while i < p.allow_remote_ports.len()
        invariant
            i <= p.allow_remote_ports@.len(),
            *cfg == *old(cfg),
            text::trimmed(p.name@).len() > 0,
            text::trimmed(p.token@).len() > 0,
            config::first_bad_entry(p.allow_remote_ports@.skip(i as int))
                == config::first_bad_entry(p.allow_remote_ports@),
        decreases p.allow_remote_ports@.len() - i,
    {
        let entry = p.allow_remote_ports[i].as_str();
        if parse_port_range(entry).is_err() {
            let body = invalid_range_message(quoted(entry).as_str());
            return Err(Reply { status: BAD_REQUEST, body });
        }
        assert(p.allow_remote_ports@.skip(i as int).skip(1) =~= p.allow_remote_ports@.skip(i + 1));
        i += 1;
    }
    remove_named(&mut cfg.users, p.name.as_str());
    cfg.users.push(
        User { name: p.name, token: p.token, allow_remote_ports: p.allow_remote_ports },
    );
    Ok(())
}

/// Whether `after` is `before` without the users of that name.
pub open spec fn deleted(before: ServerConfig, after: ServerConfig, name: Seq<char>) -> bool {
    &&& only_users_differ(before, after)
    &&& after.users@ == without(before.users@, name)
}

/// Deletes the user with that name. A name that is not configured is reported,
/// and nothing changes.
pub fn delete_user(cfg: &mut ServerConfig, name: &str) -> (r: Result<(), Reply>)
    ensures
        r is Ok <==> config::user_names(old(cfg).users@).contains(name@),
        r is Ok ==> deleted(*old(cfg), *final(cfg), name@),
        r matches Err(reply) ==> {
            &&& only_users_differ(*old(cfg), *final(cfg))
            &&& final(cfg).users@ == old(cfg).users@
            &&& reply.status == NOT_FOUND
            &&& reply.body@ == "user "@ + text::quoted_text(name@) + " not found"@
        },
        r is Ok <==> exists|i: int|
            0 <= i < old(cfg).users@.len() && (#[trigger] old(cfg).users@[i]).name@ == name@,
        final(cfg).users@ == old(cfg).users@.filter(|u: User| u.name@ != name@),
        final(cfg).public_host == old(cfg).public_host,
        final(cfg).state_dir == old(cfg).state_dir,
        final(cfg).transports == old(cfg).transports,
        final(cfg).security == old(cfg).security,
        final(cfg).dashboard == old(cfg).dashboard,
        r matches Err(reply) ==> reply.status == 404,
{
    proof {
        removal_keeps_the_others_in_order(cfg.users@, name@, |u: User| u.name@ != name@);
        let names = config::user_names(cfg.users@);
        if names.contains(name@) {
            let i = choose|i: int| 0 <= i < names.len() && names[i] == name@;
            assert(cfg.users@[i].name@ == name@);
        }
        if exists|i: int|
            0 <= i < cfg.users@.len() && (#[trigger] cfg.users@[i]).name@ == name@ {
            let i = choose|i: int|
                0 <= i < cfg.users@.len() && (#[trigger] cfg.users@[i]).name@ == name@;
            assert(names[i] == name@);
        }
    }
    let before: usize = cfg.users.len();
    proof {
        lemma_without(cfg.users@, name@);
    }
    remove_named(&mut cfg.users, name);
    if cfg.users.len() == before {
        let body = no_such_user_message(quoted(name).as_str());
        return Err(Reply { status: NOT_FOUND, body });
    }
    Ok(())
}

// ── Client configurations and applying edits ───────────────────────────────

/// Replies with a user's client configuration, or with what is wrong.
pub fn client_config(
    cfg: &ServerConfig,
    id: &ServerIdentity,
    user: &str,
    host: Option<&str>,
) -> (r: Reply)
    requires
        identity::encodable(id@.noise.1.len()),
    ensures
        ({
            let found = client_config::user_named(cfg.users@, user@);
            if found is None {
                &&& r.status == BAD_REQUEST
                &&& r.body@ == client_config::unknown_user_text(cfg.users@, user@)
            } else if identity::pem_der(id@.tls.0) is None {
                &&& r.status == BAD_REQUEST
                &&& r.body@ == "decoding the stored TLS certificate"@
            } else {
                &&& r.status == OK
                &&& r.body@ == client_config::srpc_toml(*cfg, id@, found->0, host)
            }
        }),
        r.status == 200 || r.status == 400,
        r.status == 200 <==> identity::pem_der(id@.tls.0) is Some && exists|i: int|
            0 <= i < cfg.users@.len() && (#[trigger] cfg.users@[i]).name@ == user@,
        r.status == 200 ==> exists|i: int| #![trigger cfg.users@[i]]
            {
                let e = document::read(r.body@, Seq::empty())->0;
                &&& 0 <= i < cfg.users@.len()
                &&& cfg.users@[i].name@ == user@
                &&& document::set_to(e, "[security]"@, "username"@, document::Value::Text(user@))
                &&& document::set_to(
                    e,
                    "[security]"@,
                    "token"@,
                    document::Value::Text(cfg.users@[i].token@),
                )
            },
{
    match render_srpc_toml(cfg, id, user, host) {
        Ok(toml) => Reply { status: OK, body: toml },
        Err(e) => Reply { status: BAD_REQUEST, body: e.message() },
    }
}

/// How storing an edited configuration went; failures come with their cause.
#[derive(Debug)]
pub enum Stored {
    Done,
    NotSerialized(String),
    NotWritten(String),
}

/// Replies to an edit once it is known how storing it went. Only a configuration
/// that is stored is put to use.
pub fn apply(stored: Stored) -> (r: (bool, Reply))
    ensures
        r.0 == (stored is Done),
        stored is Done ==> r.1.status == 200,
        !(stored is Done) ==> r.1.status == 500,
        match stored {
            Stored::Done => r.1.status == OK && r.1.body@ == "ok"@,
            Stored::NotSerialized(cause) => r.1.status == INTERNAL_SERVER_ERROR && r.1.body@
                == "serializing config: "@ + cause@,
            Stored::NotWritten(cause) => r.1.status == INTERNAL_SERVER_ERROR && r.1.body@
                == "writing config file: "@ + cause@,
        },
{
    match stored {
        Stored::Done => (true, Reply { status: OK, body: "ok".to_owned() }),
        Stored::NotSerialized(cause) => {
            let mut body = "serializing config: ".to_owned();
            body.append(cause.as_str());
            (false, Reply { status: INTERNAL_SERVER_ERROR, body })
        },
        Stored::NotWritten(cause) => {
            let mut body = "writing config file: ".to_owned();
            body.append(cause.as_str());
            (false, Reply { status: INTERNAL_SERVER_ERROR, body })
        },
    }
}

// ── What holds of every edit ───────────────────────────────────────────────

/// A removal keeps the users with another name, each as it was and in the same
/// order, and keeps nobody else.
pub proof fn removal_keeps_the_others_in_order(
    users: Seq<User>,
    name: Seq<char>,
    kept: spec_fn(User) -> bool,
)
    requires
        forall|u: User| #[trigger] kept(u) <==> u.name@ != name,
    ensures
        without(users, name) == users.filter(kept),
    decreases users.len(),
{
    reveal(Seq::filter);
    if users.len() > 0 {
        removal_keeps_the_others_in_order(users.drop_last(), name, kept);
    } else {
        assert(users =~= Seq::empty());
    }
}

/// A user is taken exactly if name and token hold more than spaces and every port
/// entry is a range. Otherwise the reason names the first of these that fails.
pub proof fn payloads_are_taken_if_complete(p: UserPayload)
    ensures
        payload_objection(p) is None <==> {
            &&& exists|k: int| 0 <= k < p.name@.len() && !text::is_space(#[trigger] p.name@[k])
            &&& exists|k: int| 0 <= k < p.token@.len() && !text::is_space(#[trigger] p.token@[k])
            &&& forall|i: int|
                0 <= i < p.allow_remote_ports@.len() ==> config::range_of(
                    #[trigger] p.allow_remote_ports@[i]@,
                ) is Range
        },
        payload_objection(p) is Some ==> (payload_objection(p)->0 == "user name is required"@
            || payload_objection(p)->0 == "token is required"@ || exists|i: int|
            0 <= i < p.allow_remote_ports@.len() && !(config::range_of(
                #[trigger] p.allow_remote_ports@[i]@,
            ) is Range) && payload_objection(p)->0 == "invalid port range: "@ + text::quoted_text(
                p.allow_remote_ports@[i]@,
            )),
        (forall|k: int| 0 <= k < p.name@.len() ==> text::is_space(#[trigger] p.name@[k]))
            <==> payload_objection(p) == Some("user name is required"@),
{
    text::only_spaces_trim_to_nothing(p.name@);
    text::only_spaces_trim_to_nothing(p.token@);
    config::bad_entries_are_no_ranges(p.allow_remote_ports@);
    reveal_strlit("user name is required");
    reveal_strlit("token is required");
    reveal_strlit("invalid port range: ");
    let named = "user name is required"@;
    if let Some(entry) = config::first_bad_entry(p.allow_remote_ports@) {
        let other = "invalid port range: "@ + text::quoted_text(entry);
        assert(other[0] == 'i');
        assert(named[0] == 'u');
    }
    assert("token is required"@[0] == 't');
}

/// An edit takes effect on the ports too: once a user was added or replaced, the
/// one user of that name is allowed exactly the ports that lie within a range of
/// the entries that were sent. Everyone else stands as before.
pub proof fn upserted_users_may_have_their_ports(
    before: ServerConfig,
    after: ServerConfig,
    p: UserPayload,
    port: u16,
)
    requires
        upserted(before, after, p),
    ensures
        ({
            let user = after.users@.last();
            &&& after.users@.len() > 0
            &&& user.name@ == p.name@
            &&& user.token@ == p.token@
            &&& user.allow_remote_ports@ == p.allow_remote_ports@
            &&& server::allows(user, port) <==> exists|i: int|
                0 <= i < p.allow_remote_ports@.len() && (config::range_of(
                    #[trigger] p.allow_remote_ports@[i]@,
                ) matches config::RangeView::Range { lo, hi } && lo <= port && port <= hi)
        }),
        after.users@.drop_last() == before.users@.filter(|u: User| u.name@ != p.name@),
        forall|i: int|
            0 <= i < after.users@.len() - 1 ==> (#[trigger] after.users@[i]).name@ != p.name@,
{
    removal_keeps_the_others_in_order(before.users@, p.name@, |u: User| u.name@ != p.name@);
    lemma_without(before.users@, p.name@);
    let kept = without(before.users@, p.name@);
    assert(after.users@.drop_last() =~= kept);
    assert forall|i: int| 0 <= i < after.users@.len() - 1 implies (#[trigger] after.users@[i]).name@
        != p.name@ by {
        assert(after.users@[i] == kept[i]);
    }
    server::permitted_ports_lie_within_a_range(after.users@.last(), port);
}

/// The user whom a login with the payload's name and token finds after the edit is
/// the one with the payload's ports.
pub proof fn logins_find_the_upserted_user(before: ServerConfig, after: ServerConfig, p: UserPayload)
    requires
        upserted(before, after, p),
    ensures
        server::login_position(after.users@, p.name@, p.token@) == after.users@.len() - 1,
{
    upserted_users_may_have_their_ports(before, after, p, 0);
    upserted_users_can_log_in(before, after, p, p.token@);
    server::login_needs_name_and_token(after, p.name@, p.token@);
}

/// Transports are shown in a fixed order, TCP before QUIC before WSS, each once and
/// exactly if it is enabled, with the address of its own block.
pub proof fn enabled_transports_are_shown(cfg: ServerConfig, kind: TransportKind)
    ensures
        shown_kinds(cfg).contains(kind) <==> (match kind {
            TransportKind::Tcp => cfg.transports.tcp is Some && cfg.transports.tcp->0.enabled,
            TransportKind::Quic => cfg.transports.quic is Some && cfg.transports.quic->0.enabled,
            TransportKind::Wss => cfg.transports.wss is Some && cfg.transports.wss->0.enabled,
        }),
        forall|i: int, j: int|
            0 <= i < j < shown_kinds(cfg).len() ==> {
                ||| shown_kinds(cfg)[i] is Tcp && !(shown_kinds(cfg)[j] is Tcp)
                ||| shown_kinds(cfg)[i] is Quic && shown_kinds(cfg)[j] is Wss
            },
        shown_bind(cfg, TransportKind::Tcp) == cfg.transports.tcp->0.bind.host@ + ":"@
            + text::decimal(cfg.transports.tcp->0.bind.port as nat),
        shown_bind(cfg, TransportKind::Quic) == cfg.transports.quic->0.bind.host@ + ":"@
            + text::decimal(cfg.transports.quic->0.bind.port as nat),
        shown_bind(cfg, TransportKind::Wss) == cfg.transports.wss->0.bind.host@ + ":"@
            + text::decimal(cfg.transports.wss->0.bind.port as nat) + " "@
            + cfg.transports.wss->0.path@,
{
    let tcp: nat = if cfg.transports.on(TransportKind::Tcp) {
        1
    } else {
        0
    };
    let quic: nat = if cfg.transports.on(TransportKind::Quic) {
        1
    } else {
        0
    };
    let all = shown_kinds(cfg);
    if cfg.transports.on(kind) {
        let at: int = match kind {
            TransportKind::Tcp => 0,
            TransportKind::Quic => tcp as int,
            TransportKind::Wss => (tcp + quic) as int,
        };
        assert(all[at] == kind);
    }
}

/// `without` keeps exactly the users with another name, and removes something
/// exactly if the name is there.
proof fn lemma_without(users: Seq<User>, name: Seq<char>)
    ensures
        without(users, name).len() <= users.len(),
        without(users, name).len() < users.len() <==> config::user_names(users).contains(name),
        without(users, name).len() == users.len() ==> without(users, name) == users,
        forall|k: int|
            0 <= k < without(users, name).len() ==> (#[trigger] without(users, name)[k]).name@
                != name && users.contains(without(users, name)[k]),
        forall|i: int|
            0 <= i < users.len() && (#[trigger] users[i]).name@ != name ==> without(
                users,
                name,
            ).contains(users[i]),
    decreases users.len(),
{
    let names = config::user_names(users);
    if users.len() > 0 {
        let init = users.drop_last();
        let last = users.last();
        let kept = without(init, name);
        lemma_without(init, name);
        assert(config::user_names(init) =~= names.drop_last());
        if last.name@ == name {
            assert(names[names.len() - 1] == name);
        } else {
            assert(kept.push(last).len() == kept.len() + 1);
            if names.contains(name) {
                let i = choose|i: int| 0 <= i < names.len() && names[i] == name;
                assert(names.drop_last()[i] == name);
            }
            if names.drop_last().contains(name) {
                let i = choose|i: int| 0 <= i < names.len() - 1 && names.drop_last()[i] == name;
                assert(names[i] == name);
            }
            if kept.len() == init.len() {
                assert(kept.push(last) =~= users);
            }
        }
        assert forall|k: int| 0 <= k < without(users, name).len() implies (#[trigger] without(
            users,
            name,
        )[k]).name@ != name && users.contains(without(users, name)[k]) by {
            if k < kept.len() {
                let i = choose|i: int| 0 <= i < init.len() && init[i] == kept[k];
                assert(users[i] == kept[k]);
            } else {
                assert(users[users.len() - 1] == last);
            }
        }
        assert forall|i: int|
            0 <= i < users.len() && (#[trigger] users[i]).name@ != name implies without(
            users,
            name,
        ).contains(users[i]) by {
            if i < init.len() {
                assert(init[i] == users[i]);
                let k = choose|k: int| 0 <= k < kept.len() && kept[k] == init[i];
                assert(without(users, name)[k] == users[i]);
            } else {
                assert(without(users, name)[kept.len() as int] == last);
            }
        }
    }
}

/// Pairwise distinct names stay pairwise distinct when users are removed.
proof fn lemma_without_distinct(users: Seq<User>, name: Seq<char>)
    requires
        forall|i: int, j: int|
            0 <= i < j < users.len() ==> (#[trigger] users[i]).name@ != (#[trigger] users[j]).name@,
    ensures
        forall|i: int, j: int|
            0 <= i < j < without(users, name).len() ==> (#[trigger] without(users, name)[i]).name@
                != (#[trigger] without(users, name)[j]).name@,
    decreases users.len(),
{
    if users.len() > 0 {
        let init = users.drop_last();
        let kept = without(init, name);
        lemma_without_distinct(init, name);
        lemma_without(init, name);
        assert forall|i: int, j: int| 0 <= i < j < without(users, name).len() implies (
        #[trigger] without(users, name)[i]).name@ != (#[trigger] without(users, name)[j]).name@ by {
            if j == kept.len() {
                let k = choose|k: int| 0 <= k < init.len() && init[k] == kept[i];
                assert(users[k].name@ != users[users.len() - 1].name@);
            }
        }
    }
}

/// Users that all have another name and port entries that are ranges break no
/// rule.
proof fn lemma_no_objection(cfg: ServerConfig)
    requires
        config::any_enabled(cfg.transports),
        cfg.security.server_secret@.len() > 0,
        forall|i: int, j: int|
            0 <= i < j < cfg.users@.len() ==> (#[trigger] cfg.users@[i]).name@ != (
            #[trigger] cfg.users@[j]).name@,
        forall|i: int|
            0 <= i < cfg.users@.len() ==> config::first_bad_entry(
                (#[trigger] cfg.users@[i]).allow_remote_ports@,
            ) is None,
    ensures
        config::objection(cfg) is None,
{
    let names = config::user_names(cfg.users@);
    text::lemma_first_repeated(names);
    let at = text::first_repeated(names) as int;
    if at < names.len() {
        let j = choose|j: int| 0 <= j < at && #[trigger] names[j] == names[at];
        assert(cfg.users@[j].name@ != cfg.users@[at].name@);
    }
    lemma_no_bad_users(cfg.users@);
}

proof fn lemma_no_bad_users(users: Seq<User>)
    requires
        forall|i: int|
            0 <= i < users.len() ==> config::first_bad_entry(
                (#[trigger] users[i]).allow_remote_ports@,
            ) is None,
    ensures
        config::first_bad_user(users) is None,
    decreases users.len(),
{
    if users.len() > 0 {
        assert(config::first_bad_entry(users[0].allow_remote_ports@) is None);
        lemma_no_bad_users(users.skip(1));
    }
}

proof fn lemma_good_users(users: Seq<User>)
    requires
        config::first_bad_user(users) is None,
    ensures
        forall|i: int|
            0 <= i < users.len() ==> config::first_bad_entry(
                (#[trigger] users[i]).allow_remote_ports@,
            ) is None,
    decreases users.len(),
{
    if users.len() > 0 {
        lemma_good_users(users.skip(1));
        assert forall|i: int| 0 <= i < users.len() implies config::first_bad_entry(
            (#[trigger] users[i]).allow_remote_ports@,
        ) is None by {
            if i > 0 {
                assert(users.skip(1)[i - 1] == users[i]);
            }
        }
    }
}

/// Edits never break a configuration: one that is accepted is still accepted
/// after a user was added, replaced or deleted.
pub proof fn edits_keep_configs_valid(
    before: ServerConfig,
    after: ServerConfig,
    p: UserPayload,
    name: Seq<char>,
)
    requires
        config::objection(before) is None,
        (upserted(before, after, p) && payload_objection(p) is None) || deleted(
            before,
            after,
            name,
        ),
    ensures
        config::objection(after) is None,
{
    let added = User { name: p.name, token: p.token, allow_remote_ports: p.allow_remote_ports };
    let gone = if upserted(before, after, p) && payload_objection(p) is None {
        p.name@
    } else {
        name
    };
    let kept = without(before.users@, gone);
    config::accepted_configs_are_complete(before);
    lemma_good_users(before.users@);
    lemma_without(before.users@, gone);
    lemma_without_distinct(before.users@, gone);
    assert forall|i: int| 0 <= i < after.users@.len() implies config::first_bad_entry(
        (#[trigger] after.users@[i]).allow_remote_ports@,
    ) is None by {
        if i < kept.len() {
            assert(after.users@[i] == kept[i]);
            let k = choose|k: int| 0 <= k < before.users@.len() && before.users@[k] == kept[i];
            assert(config::first_bad_entry(before.users@[k].allow_remote_ports@) is None);
        }
    }
    assert forall|i: int, j: int| 0 <= i < j < after.users@.len() implies (
    #[trigger] after.users@[i]).name@ != (#[trigger] after.users@[j]).name@ by {
        assert(after.users@[i] == kept[i]);
        if j < kept.len() {
            assert(after.users@[j] == kept[j]);
        }
    }
    lemma_no_objection(after);
}

/// An edit takes effect: a user who was added or replaced can log in with the new
/// token, and with no other.
pub proof fn upserted_users_can_log_in(
    before: ServerConfig,
    after: ServerConfig,
    p: UserPayload,
    token: Seq<char>,
)
    requires
        upserted(before, after, p),
    ensures
        server::login_position(after.users@, p.name@, token) < after.users@.len() <==> token
            == p.token@,
{
    let kept = without(before.users@, p.name@);
    lemma_without(before.users@, p.name@);
    lemma_login_is_last(after.users@, p.name@, token, 0);
}

proof fn lemma_login_is_last(users: Seq<User>, name: Seq<char>, token: Seq<char>, from: nat)
    requires
        from < users.len(),
        forall|i: int| 0 <= i < users.len() - 1 ==> (#[trigger] users[i]).name@ != name,
        users.last().name@ == name,
    ensures
        server::login_from(users, name, token, from) < users.len() <==> users.last().token@
            == token,
    decreases users.len() - from,
{
    if from < users.len() - 1 {
        assert(users[from as int].name@ != name);
        lemma_login_is_last(users, name, token, from + 1);
    } else {
        reveal_with_fuel(server::login_from, 2);
    }
}

/// A user who was deleted cannot log in any more, and nobody else is affected.
pub proof fn deleted_users_cannot_log_in(
    before: ServerConfig,
    after: ServerConfig,
    name: Seq<char>,
    token: Seq<char>,
)
    requires
        deleted(before, after, name),
    ensures
        server::login_position(after.users@, name, token) == after.users@.len(),
        forall|i: int|
            0 <= i < before.users@.len() && (#[trigger] before.users@[i]).name@ != name
                ==> after.users@.contains(before.users@[i]),
{
    lemma_without(before.users@, name);
    lemma_login_fails(after.users@, name, token, 0);
}

proof fn lemma_login_fails(users: Seq<User>, name: Seq<char>, token: Seq<char>, from: nat)
    requires
        from <= users.len(),
        forall|i: int| 0 <= i < users.len() ==> (#[trigger] users[i]).name@ != name,
    ensures
        server::login_from(users, name, token, from) == users.len(),
    decreases users.len() - from,
{
    if from < users.len() {
        assert(users[from as int].name@ != name);
        lemma_login_fails(users, name, token, from + 1);
    }
}

} // verus!
