//! Relay client: dial the server, register proxies, forward connections.
//!
//! The client tries the transports in `transport_priority` order and keeps the
//! first that connects. It then authenticates on the control substream and
//! registers each configured proxy. The server drives traffic by opening data
//! substreams, which the client relays to the matching local TCP or UDP service.

use vstd::prelude::*;
use vstd::string::*;

use super::config::{self, ClientConfig, ClientSection, ProxyRule};
use crate::proto::{ControlMsg, MsgView};
use crate::text::{self, quoted, same_text};
use crate::types::{self, host_port, TransportKind};

verus! {

/// A UDP session idle (no traffic from the local service) for this many seconds
/// is dropped; the server enforces the same.
pub const UDP_IDLE_SECS: u64 = 60;

// ---------------------------------------------------------------------------
// The control conversation
// ---------------------------------------------------------------------------

/// What the client is waiting for on the control substream.
#[derive(Debug, Clone, Copy, PartialEq, Eq, Structural)]
pub enum ClientPhase {
    /// The reply to the login.
    LoggingIn,
    /// The reply to the registration of the proxy with this index.
    Registering(usize),
    /// Keep-alive pings.
    Serving,
}

/// The client's side of the control conversation.
#[derive(Debug, Clone, Copy, PartialEq, Eq, Structural)]
pub struct ClientSession {
    pub phase: ClientPhase,
    /// How many proxies the server has accepted.
    pub active: usize,
}

/// Why the client gives up.
#[derive(Debug)]
pub enum ClientError {
    /// The server rejected the login, for this reason.
    LoginRejected(String),
    /// The server answered the login with something else.
    UnexpectedLoginReply(ControlMsg),
    /// The server answered a registration with something else.
    UnexpectedRegistrationReply(ControlMsg),
}

/// What the client does about a message.
#[derive(Debug)]
pub enum ClientAction {
    /// Send this message and wait for the next one.
    Send(ControlMsg),
    /// Registration is complete: relay data substreams from now on.
    Ready,
    /// Wait for the next message.
    Nothing,
    /// Give up.
    Fail(ClientError),
}

/// A [`ClientAction`] by the characters of its texts.
pub enum ActionView {
    Send(MsgView),
    Ready,
    Nothing,
    LoginRejected(Seq<char>),
    UnexpectedLoginReply(MsgView),
    UnexpectedRegistrationReply(MsgView),
}

impl View for ClientAction {
    type V = ActionView;

    open spec fn view(&self) -> ActionView {
        match *self {
            ClientAction::Send(msg) => ActionView::Send(msg@),
            ClientAction::Ready => ActionView::Ready,
            ClientAction::Nothing => ActionView::Nothing,
            ClientAction::Fail(ClientError::LoginRejected(reason)) => ActionView::LoginRejected(
                reason@,
            ),
            ClientAction::Fail(ClientError::UnexpectedLoginReply(msg)) => {
                ActionView::UnexpectedLoginReply(msg@)
            },
            ClientAction::Fail(ClientError::UnexpectedRegistrationReply(msg)) => {
                ActionView::UnexpectedRegistrationReply(msg@)
            },
        }
    }
}

/// What is said of a rejected login.
pub fn login_rejected_message(reason: &str) -> (s: String)
    ensures
        s@ == "login rejected by server: "@ + reason@,
{
    let mut s = "login rejected by server: ".to_owned();
    s.append(reason);
    s
}

/// The message that logs the client in.
pub open spec fn login_of(cfg: ClientConfig) -> MsgView {
    MsgView::Login { username: cfg.security.username@, token: cfg.security.token@ }
}

/// The message that registers a proxy.
pub open spec fn registration_of(rule: ProxyRule) -> MsgView {
    MsgView::RegisterProxy { name: rule.name@, kind: rule.kind, remote_port: rule.remote_port }
}

impl ClientSession {
    /// Whether the session is one that a client with `proxies` proxies gets into.
    pub open spec fn wf(self, proxies: nat) -> bool {
        match self.phase {
            ClientPhase::LoggingIn => self.active == 0,
            ClientPhase::Registering(i) => i < proxies && self.active <= i,
            ClientPhase::Serving => self.active <= proxies,
        }
    }

    /// The session once the proxies before `i` are dealt with.
    pub open spec fn at_proxy(cfg: ClientConfig, i: nat, active: usize) -> ClientSession {
        ClientSession {
            phase: if i < cfg.proxies@.len() {
                ClientPhase::Registering(i as usize)
            } else {
                ClientPhase::Serving
            },
            active,
        }
    }

    /// What the client does then: register the next proxy, or start to serve.
    pub open spec fn action_at_proxy(cfg: ClientConfig, i: nat) -> ActionView {
        if i < cfg.proxies@.len() {
            ActionView::Send(registration_of(cfg.proxies@[i as int]))
        } else {
            ActionView::Ready
        }
    }

    /// The session after `msg`.
    pub open spec fn after(self, cfg: ClientConfig, msg: MsgView) -> ClientSession {
        match (self.phase, msg) {
            (ClientPhase::LoggingIn, MsgView::LoginOk) => Self::at_proxy(cfg, 0, self.active),
            (ClientPhase::Registering(i), MsgView::RegisterOk { .. }) => Self::at_proxy(
                cfg,
                i as nat + 1,
                (self.active + 1) as usize,
            ),
            (ClientPhase::Registering(i), MsgView::RegisterErr { .. }) => Self::at_proxy(
                cfg,
                i as nat + 1,
                self.active,
            ),
            _ => self,
        }
    }

    /// What the client does about `msg`.
    pub open spec fn reaction(self, cfg: ClientConfig, msg: MsgView) -> ActionView {
        match self.phase {
            ClientPhase::LoggingIn => match msg {
                MsgView::LoginOk => Self::action_at_proxy(cfg, 0),
                MsgView::LoginErr { reason } => ActionView::LoginRejected(reason),
                _ => ActionView::UnexpectedLoginReply(msg),
            },
            ClientPhase::Registering(i) => match msg {
                MsgView::RegisterOk { .. } => Self::action_at_proxy(cfg, i as nat + 1),
                MsgView::RegisterErr { .. } => Self::action_at_proxy(cfg, i as nat + 1),
                _ => ActionView::UnexpectedRegistrationReply(msg),
            },
            ClientPhase::Serving => match msg {
                MsgView::Ping => ActionView::Send(MsgView::Pong),
                _ => ActionView::Nothing,
            },
        }
    }

    /// Starts the conversation: gives the login message to send.
    pub fn start(cfg: &ClientConfig) -> (r: (ClientSession, ControlMsg))
        ensures
            r.0 == (ClientSession { phase: ClientPhase::LoggingIn, active: 0 }),
            r.0.wf(cfg.proxies@.len()),
            r.1@ == login_of(*cfg),
            r.1 matches ControlMsg::Login { username, token } && username@
                == cfg.security.username@ && token@ == cfg.security.token@,
    {
        (
            ClientSession { phase: ClientPhase::LoggingIn, active: 0 },
            ControlMsg::Login {
                username: cfg.security.username.clone(),
                token: cfg.security.token.clone(),
            },
        )
    }

    /// Moves on to the proxy with index `i`, or to serving when there is none.
    fn go_to_proxy(&mut self, cfg: &ClientConfig, i: usize) -> (r: ClientAction)
        requires
            i <= cfg.proxies@.len(),
            old(self).active <= i,
        ensures
            final(self).wf(cfg.proxies@.len()),
            *final(self) == ClientSession::at_proxy(*cfg, i as nat, old(self).active),
            r@ == ClientSession::action_at_proxy(*cfg, i as nat),
            i < cfg.proxies@.len() ==> {
                &&& final(self).phase == ClientPhase::Registering(i)
                &&& r matches ClientAction::Send(
                    ControlMsg::RegisterProxy { name, kind, remote_port },
                ) && name@ == cfg.proxies@[i as int].name@ && kind == cfg.proxies@[i as int].kind
                    && remote_port == cfg.proxies@[i as int].remote_port
            },
            i == cfg.proxies@.len() ==> final(self).phase is Serving && r is Ready,
            final(self).active == old(self).active,
    {
        if i < cfg.proxies.len() {
            self.phase = ClientPhase::Registering(i);
            let rule = &cfg.proxies[i];
            ClientAction::Send(
                ControlMsg::RegisterProxy {
                    name: rule.name.clone(),
                    kind: rule.kind,
                    remote_port: rule.remote_port,
                },
            )
        } else {
            self.phase = ClientPhase::Serving;
            ClientAction::Ready
        }
    }

    /// Takes the server's next message on the control substream.
    ///
    /// The login must be accepted; each registration may be accepted or rejected,
    /// and the next proxy follows either way; once all are dealt with, pings are
    /// answered and everything else is ignored.
    pub fn on_message(&mut self, cfg: &ClientConfig, msg: ControlMsg) -> (r: ClientAction)
        requires
            old(self).wf(cfg.proxies@.len()),
        ensures
            final(self).wf(cfg.proxies@.len()),
            *final(self) == old(self).after(*cfg, msg@),
            r@ == old(self).reaction(*cfg, msg@),
            r matches ClientAction::Send(ControlMsg::RegisterProxy { name, kind, remote_port })
                ==> (final(self).phase matches ClientPhase::Registering(i) && i < cfg.proxies@.len()
                && name@ == cfg.proxies@[i as int].name@ && kind == cfg.proxies@[i as int].kind
                && remote_port == cfg.proxies@[i as int].remote_port),
            r matches ClientAction::Send(reply) ==> reply is RegisterProxy || (reply is Pong && msg
                is Ping && old(self).phase is Serving),
            r is Ready ==> final(self).phase is Serving && !(old(self).phase is Serving),
            r matches ClientAction::Fail(ClientError::LoginRejected(reason)) ==> (
            msg matches ControlMsg::LoginErr { reason: given } && reason@ == given@),
            final(self).active == old(self).active + if old(self).phase is Registering && msg
                is RegisterOk {
                1int
            } else {
                0
            },
            match old(self).phase {
                ClientPhase::LoggingIn => match msg {
                    ControlMsg::LoginOk => if cfg.proxies@.len() > 0 {
                        final(self).phase == ClientPhase::Registering(0) && r is Send
                    } else {
                        final(self).phase is Serving && r is Ready
                    },
                    ControlMsg::LoginErr { reason } => {
                        &&& r matches ClientAction::Fail(ClientError::LoginRejected(given))
                            && given@ == reason@
                        &&& *final(self) == *old(self)
                    },
                    _ => r == ClientAction::Fail(ClientError::UnexpectedLoginReply(msg))
                        && *final(self) == *old(self),
                },
                ClientPhase::Registering(i) => match msg {
                    ControlMsg::RegisterOk { .. } | ControlMsg::RegisterErr { .. } => if i + 1
                        < cfg.proxies@.len() {
                        final(self).phase == ClientPhase::Registering((i + 1) as usize) && r is Send
                    } else {
                        final(self).phase is Serving && r is Ready
                    },
                    _ => r == ClientAction::Fail(ClientError::UnexpectedRegistrationReply(msg))
                        && *final(self) == *old(self),
                },
                ClientPhase::Serving => {
                    &&& *final(self) == *old(self)
                    &&& msg is Ping ==> r == ClientAction::Send(ControlMsg::Pong)
                    &&& !(msg is Ping) ==> r is Nothing
                },
            },
    {
        let total: usize = cfg.proxies.len();
        assert(self.wf(total as nat));
        match self.phase {
            ClientPhase::LoggingIn => match msg {
                ControlMsg::LoginOk => self.go_to_proxy(cfg, 0),
                ControlMsg::LoginErr { reason } => ClientAction::Fail(
                    ClientError::LoginRejected(reason),
                ),
                other => ClientAction::Fail(ClientError::UnexpectedLoginReply(other)),
            },
            ClientPhase::Registering(i) => match msg {
                ControlMsg::RegisterOk { .. } => {
                    self.active = self.active + 1;
                    self.go_to_proxy(cfg, i + 1)
                },
                ControlMsg::RegisterErr { .. } => self.go_to_proxy(cfg, i + 1),
                other => ClientAction::Fail(ClientError::UnexpectedRegistrationReply(other)),
            },
            ClientPhase::Serving => match msg {
                ControlMsg::Ping => ClientAction::Send(ControlMsg::Pong),
                _ => ClientAction::Nothing,
            },
        }
    }
}

// ---------------------------------------------------------------------------
// What holds of every conversation
// ---------------------------------------------------------------------------

/// The client logs in as the user it is configured for, with that user's token.
pub proof fn the_login_carries_the_credentials(cfg: ClientConfig)
    ensures
        login_of(cfg) is Login,
        login_of(cfg)->Login_username == cfg.security.username@,
        login_of(cfg)->Login_token == cfg.security.token@,
{
}

/// Every registration is that of a configured proxy, field by field: whatever the
/// client is told, if it then sends a registration, it waits for the answer about
/// the proxy with some index, and the message carries that proxy's name, protocol
/// and public port.
pub proof fn registrations_say_what_is_configured(
    cfg: ClientConfig,
    session: ClientSession,
    msg: MsgView,
)
    requires
        session.wf(cfg.proxies@.len()),
        session.reaction(cfg, msg) is Send,
        session.reaction(cfg, msg)->Send_0 is RegisterProxy,
    ensures
        ({
            let sent = session.reaction(cfg, msg)->Send_0;
            let next = session.after(cfg, msg);
            &&& next.phase is Registering
            &&& next.phase->Registering_0 < cfg.proxies@.len()
            &&& sent->RegisterProxy_name == cfg.proxies@[next.phase->Registering_0 as int].name@
            &&& sent->RegisterProxy_kind == cfg.proxies@[next.phase->Registering_0 as int].kind
            &&& sent->RegisterProxy_remote_port
                == cfg.proxies@[next.phase->Registering_0 as int].remote_port
        }),
{
    assert(cfg.proxies.len() == cfg.proxies@.len());
}

/// Proxies are registered one after the other and none is left out: the first one
/// once the login is accepted, each other one once its predecessor is answered,
/// whatever the answer, and only after the last answer is the client ready.
pub proof fn proxies_are_registered_in_order(cfg: ClientConfig, session: ClientSession, msg: MsgView)
    requires
        session.wf(cfg.proxies@.len()),
    ensures
        session.phase is LoggingIn && msg is LoginOk ==> {
            &&& cfg.proxies@.len() > 0 ==> session.after(cfg, msg).phase == ClientPhase::Registering(
                0,
            ) && session.reaction(cfg, msg) is Send
            &&& cfg.proxies@.len() == 0 ==> session.after(cfg, msg).phase is Serving
                && session.reaction(cfg, msg) is Ready
        },
        session.phase is Registering && (msg is RegisterOk || msg is RegisterErr) ==> {
            let i = session.phase->Registering_0;
            &&& i + 1 < cfg.proxies@.len() ==> session.after(cfg, msg).phase is Registering
                && session.after(cfg, msg).phase->Registering_0 == i + 1 && session.reaction(
                cfg,
                msg,
            ) is Send
            &&& i + 1 == cfg.proxies@.len() ==> session.after(cfg, msg).phase is Serving
                && session.reaction(cfg, msg) is Ready
        },
        session.after(cfg, msg).active == session.active + if session.phase is Registering && msg
            is RegisterOk {
            1int
        } else {
            0
        },
{
    assert(cfg.proxies.len() == cfg.proxies@.len());
}

/// The client gives up exactly on what it does not expect: on a rejected login it
/// says the server's reason, any other reply to the login or to a registration is
/// reported as it came, and once it serves it never gives up: pings are answered
/// and everything else is ignored.
pub proof fn only_unexpected_replies_end_the_client(
    cfg: ClientConfig,
    session: ClientSession,
    msg: MsgView,
)
    ensures
        session.phase is LoggingIn && msg is LoginErr ==> session.reaction(cfg, msg)
            == ActionView::LoginRejected(msg->LoginErr_reason),
        session.phase is LoggingIn && !(msg is LoginOk) && !(msg is LoginErr) ==> session.reaction(
            cfg,
            msg,
        ) == ActionView::UnexpectedLoginReply(msg),
        session.phase is Registering && !(msg is RegisterOk) && !(msg is RegisterErr)
            ==> session.reaction(cfg, msg) == ActionView::UnexpectedRegistrationReply(msg),
        session.phase is Serving && msg is Ping ==> session.reaction(cfg, msg) == ActionView::Send(
            MsgView::Pong,
        ),
        session.phase is Serving && !(msg is Ping) ==> session.reaction(cfg, msg) is Nothing,
        session.phase is Serving ==> session.after(cfg, msg) == session,
{
}

// ---------------------------------------------------------------------------
// Dialling
// ---------------------------------------------------------------------------

/// Which transport is tried next.
#[derive(Debug, Clone, Copy, PartialEq, Eq, Structural)]
pub struct Attempts {
    /// How many of the transports have failed.
    pub failed: usize,
}

impl Attempts {
    /// Nothing tried yet.
    pub open spec fn fresh() -> Attempts {
        Attempts { failed: 0 }
    }

    /// The transport to try: the first in priority order that has not failed.
    pub open spec fn next_kind(self, c: ClientSection) -> Option<TransportKind> {
        if self.failed < c.transport_priority@.len() {
            Some(c.transport_priority@[self.failed as int])
        } else {
            None
        }
    }

    /// The attempts once the transport that was tried has failed.
    pub open spec fn after_failure(self) -> Attempts {
        Attempts { failed: (self.failed + 1) as usize }
    }

    /// Where trying one transport after the other comes to an end: at one that
    /// connects, or when all have failed. `connects` says of the transport with
    /// that position whether it connects when it is tried.
    pub open spec fn settled(self, c: ClientSection, connects: spec_fn(int) -> bool) -> Attempts
        decreases c.transport_priority@.len() - self.failed,
    {
        if self.next_kind(c) is Some && !connects(self.failed as int) && self.failed < usize::MAX {
            self.after_failure().settled(c, connects)
        } else {
            self
        }
    }

    /// Nothing tried yet.
    pub fn new() -> (a: Attempts)
        ensures
            a == Attempts::fresh(),
            a.failed == 0,
    {
        Attempts { failed: 0 }
    }

    /// The transport to try: the first in priority order that has not failed.
    /// `None` means that every transport has failed.
    pub fn current(&self, c: &ClientSection) -> (r: Option<TransportKind>)
        ensures
            r == self.next_kind(*c),
            r is Some <==> self.failed < c.transport_priority@.len(),
            r matches Some(kind) ==> kind == c.transport_priority@[self.failed as int],
    {
        if self.failed < c.transport_priority.len() {
            Some(c.transport_priority[self.failed])
        } else {
            None
        }
    }

    /// Notes that the transport that was tried failed to connect.
    pub fn record_failure(&mut self, c: &ClientSection)
        requires
            old(self).next_kind(*c) is Some,
        ensures
            *final(self) == old(self).after_failure(),
            final(self).failed == old(self).failed + 1,
    {
        let total: usize = c.transport_priority.len();
        assert(self.failed < total);
        self.failed = self.failed + 1;
    }
}

/// The first transport that connects is kept: trying them in turn comes to an end
/// at a transport that connects, and all before it in priority order were tried
/// and failed; or at no transport, and then every one was tried and failed.
pub proof fn first_connecting_transport_is_kept(c: ClientSection, connects: spec_fn(int) -> bool)
    ensures
        ({
            let end = Attempts::fresh().settled(c, connects);
            &&& end.failed <= c.transport_priority@.len()
            &&& end.next_kind(c) is Some ==> connects(end.failed as int)
            &&& forall|i: int| 0 <= i < end.failed ==> !#[trigger] connects(i)
            &&& end.failed < c.transport_priority@.len() ==> end.next_kind(c) == Some(
                c.transport_priority@[end.failed as int],
            )
            &&& end.failed == c.transport_priority@.len() ==> end.next_kind(c) is None
        }),
{
    assert(c.transport_priority.len() == c.transport_priority@.len());
    lemma_settled(Attempts::fresh(), c, connects);
}

proof fn lemma_settled(a: Attempts, c: ClientSection, connects: spec_fn(int) -> bool)
    requires
        a.failed <= c.transport_priority@.len() <= usize::MAX,
        forall|i: int| 0 <= i < a.failed ==> !#[trigger] connects(i),
    ensures
        ({
            let end = a.settled(c, connects);
            &&& end.failed <= c.transport_priority@.len()
            &&& end.next_kind(c) is Some ==> connects(end.failed as int)
            &&& forall|i: int| 0 <= i < end.failed ==> !#[trigger] connects(i)
        }),
    decreases c.transport_priority@.len() - a.failed,
{
    if a.next_kind(c) is Some && !connects(a.failed as int) {
        lemma_settled(a.after_failure(), c, connects);
    }
}

/// How to reach the server over one transport.
#[derive(Debug)]
pub enum Dial {
    /// Connect to this address.
    Tcp { addr: String },
    /// Resolve host and port and connect with the pinned certificate.
    Quic { host: String, port: u16 },
    /// Resolve host and port, connect with the pinned certificate and upgrade on
    /// the path.
    Wss { host: String, port: u16, path: String },
}

/// A [`Dial`] by the characters of its texts.
pub enum DialView {
    Tcp { addr: Seq<char> },
    Quic { host: Seq<char>, port: u16 },
    Wss { host: Seq<char>, port: u16, path: Seq<char> },
}

impl View for Dial {
    type V = DialView;

    open spec fn view(&self) -> DialView {
        match *self {
            Dial::Tcp { addr } => DialView::Tcp { addr: addr@ },
            Dial::Quic { host, port } => DialView::Quic { host: host@, port },
            Dial::Wss { host, port, path } => DialView::Wss { host: host@, port, path: path@ },
        }
    }
}

/// A transport without a block was to be dialled.
#[derive(Debug, Clone, Copy, PartialEq, Eq, Structural)]
pub struct NoBlock {
    pub kind: TransportKind,
}

impl NoBlock {
    /// What is said of the error.
    pub fn message(&self) -> (s: String)
        ensures
            s@ == "no [client.transports."@ + self.kind.name() + "] block"@,
    {
        let mut s = "no [client.transports.".to_owned();
        s.append(self.kind.as_str());
        s.append("] block");
        s
    }
}

/// How the server is reached over `kind`.
pub open spec fn dial_of(c: ClientSection, kind: TransportKind) -> DialView
    recommends
        c.transports.has(kind),
{
    let host = c.server_host@;
    match kind {
        TransportKind::Tcp => DialView::Tcp {
            addr: types::host_port_text(host, c.transports.tcp->0.port),
        },
        TransportKind::Quic => DialView::Quic { host, port: c.transports.quic->0.port },
        TransportKind::Wss => DialView::Wss {
            host,
            port: c.transports.wss->0.port,
            path: c.transports.wss->0.path@,
        },
    }
}

/// Says how to reach the server over `kind`. Fails exactly when the transport has
/// no block.
pub fn dial(c: &ClientSection, kind: TransportKind) -> (r: Result<Dial, NoBlock>)
    ensures
        r is Ok <==> c.transports.has(kind),
        r is Ok <==> match kind {
            TransportKind::Tcp => c.transports.tcp is Some,
            TransportKind::Quic => c.transports.quic is Some,
            TransportKind::Wss => c.transports.wss is Some,
        },
        r matches Ok(d) ==> d@ == dial_of(*c, kind),
        r matches Ok(d) ==> match kind {
            TransportKind::Tcp => d matches Dial::Tcp { addr } && addr@ == c.server_host@ + ":"@
                + text::decimal(c.transports.tcp->0.port as nat),
            TransportKind::Quic => d matches Dial::Quic { host, port } && host@ == c.server_host@
                && port == c.transports.quic->0.port,
            TransportKind::Wss => d matches Dial::Wss { host, port, path } && host@
                == c.server_host@ && port == c.transports.wss->0.port && path@
                == c.transports.wss->0.path@,
        },
        r matches Err(e) ==> e.kind == kind,
{
    match kind {
        TransportKind::Tcp => match &c.transports.tcp {
            Some(tcp) => Ok(Dial::Tcp { addr: host_port(c.server_host.as_str(), tcp.port) }),
            None => Err(NoBlock { kind }),
        },
        TransportKind::Quic => match &c.transports.quic {
            Some(quic) => Ok(Dial::Quic { host: c.server_host.clone(), port: quic.port }),
            None => Err(NoBlock { kind }),
        },
        TransportKind::Wss => match &c.transports.wss {
            Some(wss) => Ok(
                Dial::Wss {
                    host: c.server_host.clone(),
                    port: wss.port,
                    path: wss.path.clone(),
                },
            ),
            None => Err(NoBlock { kind }),
        },
    }
}

/// Each transport is dialled at the server's host and at the port of its own
/// block, the WSS transport on its path.
pub proof fn transports_are_dialled_where_configured(c: ClientSection)
    ensures
        c.transports.tcp is Some ==> dial_of(c, TransportKind::Tcp) == (DialView::Tcp {
            addr: c.server_host@ + ":"@ + text::decimal(c.transports.tcp->0.port as nat),
        }),
        c.transports.quic is Some ==> dial_of(c, TransportKind::Quic) == (DialView::Quic {
            host: c.server_host@,
            port: c.transports.quic->0.port,
        }),
        c.transports.wss is Some ==> dial_of(c, TransportKind::Wss) == (DialView::Wss {
            host: c.server_host@,
            port: c.transports.wss->0.port,
            path: c.transports.wss->0.path@,
        }),
        c.transports.has(TransportKind::Tcp) == (c.transports.tcp is Some),
        c.transports.has(TransportKind::Quic) == (c.transports.quic is Some),
        c.transports.has(TransportKind::Wss) == (c.transports.wss is Some),
{
}

/// With a configuration that is accepted no transport is skipped for want of a
/// block.
pub proof fn accepted_configs_can_be_dialled(cfg: ClientConfig, attempts: Attempts)
    requires
        config::objection(cfg) is None,
        attempts.next_kind(cfg.client) is Some,
    ensures
        cfg.client.transports.has(attempts.next_kind(cfg.client)->0),
{
    config::accepted_configs_are_complete(cfg);
}

// ---------------------------------------------------------------------------
// Data substreams
// ---------------------------------------------------------------------------

/// What is said of a data substream for a proxy that is not configured.
pub open spec fn unknown_proxy_text(name: Seq<char>) -> Seq<char> {
    "server referenced unknown proxy "@ + text::quoted_text(name)
}

/// What is said of a data substream for a proxy that is not configured, whose name
/// is given in quotes.
pub fn unknown_proxy_message(quoted_name: &str) -> (s: String)
    ensures
        s@ == "server referenced unknown proxy "@ + quoted_name@,
{
    let mut s = "server referenced unknown proxy ".to_owned();
    s.append(quoted_name);
    s
}

/// Finds the proxy that a data substream serves: the first with that name.
pub fn find_proxy<'a>(cfg: &'a ClientConfig, name: &str) -> (r: Result<&'a ProxyRule, String>)
    ensures
        r is Ok <==> config::proxy_names(cfg.proxies@).contains(name@),
        r matches Ok(rule) ==> exists|i: int|
            0 <= i < cfg.proxies@.len() && #[trigger] cfg.proxies@[i] == *rule && rule.name@
                == name@ && forall|j: int| 0 <= j < i ==> #[trigger] cfg.proxies@[j].name@ != name@,
        r matches Err(text) ==> text@ == unknown_proxy_text(name@),
        r is Ok <==> exists|i: int|
            0 <= i < cfg.proxies@.len() && #[trigger] cfg.proxies@[i].name@ == name@,
        r matches Err(text) ==> text@ == "server referenced unknown proxy "@ + text::quoted_text(
            name@,
        ),
{
    let ghost names = config::proxy_names(cfg.proxies@);
    let mut i: usize = 0;
    while i < cfg.proxies.len()
        invariant
            i <= cfg.proxies@.len(),
            names == config::proxy_names(cfg.proxies@),
            forall|j: int| 0 <= j < i ==> #[trigger] cfg.proxies@[j].name@ != name@,
        decreases cfg.proxies@.len() - i,
    {
        if same_text(cfg.proxies[i].name.as_str(), name) {
            assert(names[i as int] == name@);
            assert(cfg.proxies@[i as int].name@ == name@);
            return Ok(&cfg.proxies[i]);
        }
        i += 1;
    }
    assert forall|j: int| 0 <= j < names.len() implies #[trigger] names[j] != name@ by {
        assert(names[j] == cfg.proxies@[j].name@);
    }
    Err(unknown_proxy_message(quoted(name).as_str()))
}

} // verus!
