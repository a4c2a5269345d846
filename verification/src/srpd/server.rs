//! Relay server: authenticate tunnels and register their proxies.
//!
//! Tunnels come in over every enabled transport. For each client tunnel the
//! server authenticates the client on the control substream and binds a public
//! TCP or UDP port for every registered proxy. An inbound public connection, or
//! the first datagram of a public UDP peer, becomes a fresh data substream back
//! to the client.

use vstd::prelude::*;
use vstd::string::*;

use super::client_config::{enabled_kinds, listed_transports_are_the_enabled_ones};
use super::config::{self, parse_port_range, ConfigError, ServerConfig, User};
use crate::identity::{self, PemError, ServerIdentity};
use crate::proto::{ControlMsg, DataHead, MsgView};
use crate::text::{self, number, quoted, same_text};
use crate::types::{ProxyKind, TransportKind};

verus! {

// ---------------------------------------------------------------------------
// Permissions
// ---------------------------------------------------------------------------

/// Whether `entry` is a range that `port` falls in.
pub open spec fn entry_allows(entry: Seq<char>, port: u16) -> bool {
    config::range_of(entry) matches config::RangeView::Range { lo, hi } && lo <= port <= hi
}

/// Whether `port` falls inside any of the user's permitted ranges.
pub open spec fn allows(user: User, port: u16) -> bool {
    exists|i: int|
        0 <= i < user.allow_remote_ports@.len() && entry_allows(
            #[trigger] user.allow_remote_ports@[i]@,
            port,
        )
}

/// Whether `port` falls inside any of the user's permitted ranges. An empty
/// permit list denies everything.
pub fn port_allowed(user: &User, port: u16) -> (r: bool)
    ensures
        r == allows(*user, port),
        r <==> exists|i: int|
            0 <= i < user.allow_remote_ports@.len() && (config::range_of(
                #[trigger] user.allow_remote_ports@[i]@,
            ) matches config::RangeView::Range { lo, hi } && lo <= port && port <= hi),
{
    proof {
        permitted_ports_lie_within_a_range(*user, port);
    }
    let mut i: usize = 0;
    while i < user.allow_remote_ports.len()
        invariant
            i <= user.allow_remote_ports@.len(),
            forall|k: int|
                0 <= k < i ==> !entry_allows(#[trigger] user.allow_remote_ports@[k]@, port),
        decreases user.allow_remote_ports@.len() - i,
    {
        if let Ok(range) = parse_port_range(user.allow_remote_ports[i].as_str()) {
            if port >= range.lo && port <= range.hi {
                assert(entry_allows(user.allow_remote_ports@[i as int]@, port));
                return true;
            }
        }
        i += 1;
    }
    false
}

/// A port is permitted exactly if it lies between the two ends of a range that
/// stands in the user's list: not below the low end, nor above the high end.
pub proof fn permitted_ports_lie_within_a_range(user: User, port: u16)
    ensures
        allows(user, port) <==> exists|i: int|
            0 <= i < user.allow_remote_ports@.len() && (config::range_of(
                #[trigger] user.allow_remote_ports@[i]@,
            ) matches config::RangeView::Range { lo, hi } && lo <= port && port <= hi),
        (forall|i: int|
            0 <= i < user.allow_remote_ports@.len() ==> (config::range_of(
                #[trigger] user.allow_remote_ports@[i]@,
            ) matches config::RangeView::Range { lo, hi } ==> port < lo || hi < port))
            ==> !allows(user, port),
{
    if exists|i: int|
        0 <= i < user.allow_remote_ports@.len() && (config::range_of(
            #[trigger] user.allow_remote_ports@[i]@,
        ) matches config::RangeView::Range { lo, hi } && lo <= port && port <= hi) {
        let i = choose|i: int|
            0 <= i < user.allow_remote_ports@.len() && (config::range_of(
                #[trigger] user.allow_remote_ports@[i]@,
            ) matches config::RangeView::Range { lo, hi } && lo <= port && port <= hi);
        assert(entry_allows(user.allow_remote_ports@[i]@, port));
    }
    if allows(user, port) {
        let i = choose|i: int|
            0 <= i < user.allow_remote_ports@.len() && entry_allows(
                #[trigger] user.allow_remote_ports@[i]@,
                port,
            );
        assert(config::range_of(user.allow_remote_ports@[i]@) is Range);
    }
}

/// An entry that names a low and a high port in decimal permits exactly the ports
/// from the one to the other, and an entry that names one port exactly that one.
pub proof fn entries_permit_what_they_spell(lo: u16, hi: u16, port: u16)
    requires
        lo <= hi,
    ensures
        entry_allows(text::decimal(lo as nat) + seq!['-'] + text::decimal(hi as nat), port) <==> lo
            <= port && port <= hi,
        entry_allows(text::decimal(lo as nat), port) <==> port == lo,
{
    config::ranges_read_back(lo, hi);
}

/// A longer list permits everything that a shorter one does, and nothing but what
/// its entries permit one by one.
pub proof fn lists_permit_what_their_entries_permit(
    user: User,
    shorter: User,
    entry: String,
    port: u16,
)
    requires
        user.allow_remote_ports@ == shorter.allow_remote_ports@.push(entry),
    ensures
        allows(user, port) <==> allows(shorter, port) || entry_allows(entry@, port),
{
    let n = shorter.allow_remote_ports@.len() as int;
    assert(user.allow_remote_ports@[n] == entry);
    if allows(shorter, port) {
        let i = choose|i: int|
            0 <= i < n && entry_allows(#[trigger] shorter.allow_remote_ports@[i]@, port);
        assert(user.allow_remote_ports@[i] == shorter.allow_remote_ports@[i]);
        assert(entry_allows(user.allow_remote_ports@[i]@, port));
    }
    if allows(user, port) {
        let i = choose|i: int|
            0 <= i <= n && entry_allows(#[trigger] user.allow_remote_ports@[i]@, port);
        if i < n {
            assert(user.allow_remote_ports@[i] == shorter.allow_remote_ports@[i]);
            assert(entry_allows(shorter.allow_remote_ports@[i]@, port));
        }
    }
}

/// An empty permit list denies everything.
pub proof fn empty_permit_list_denies_everything(user: User, port: u16)
    requires
        user.allow_remote_ports@.len() == 0,
    ensures
        !allows(user, port),
{
}

/// What is said of a port that the user, whose name is given in quotes, may not
/// have.
pub open spec fn not_permitted_text(quoted_user: Seq<char>, port: u16) -> Seq<char> {
    "remote port "@ + text::decimal(port as nat) + " is not permitted for user "@ + quoted_user
}

/// What is said of a port that the user, whose name is given in quotes, may not
/// have.
pub fn not_permitted_message(quoted_user: &str, port: u16) -> (s: String)
    ensures
        s@ == not_permitted_text(quoted_user@, port),
        s@ == "remote port "@ + text::decimal(port as nat) + " is not permitted for user "@
            + quoted_user@,
{
    let mut s = "remote port ".to_owned();
    s.append(number(port as u64).as_str());
    s.append(" is not permitted for user ");
    s.append(quoted_user);
    s
}

/// What is said of a public port that could not be bound.
pub open spec fn not_bound_text(port: u16) -> Seq<char> {
    "binding public port "@ + text::decimal(port as nat)
}

/// Why a registration is refused before anything is bound, if it is: the port is
/// not permitted. TCP and UDP proxies are treated alike.
pub open spec fn refusal(user: User, port: u16) -> Option<Seq<char>> {
    if !allows(user, port) {
        Some(not_permitted_text(text::quoted_text(user.name@), port))
    } else {
        None
    }
}

/// Decides on a single proxy registration request: `Ok` means that the public
/// port may be bound, an error is the reason for refusing.
pub fn register_proxy(user: &User, remote_port: u16) -> (r: Result<(), String>)
    ensures
        r is Ok <==> allows(*user, remote_port),
        r is Ok <==> refusal(*user, remote_port) is None,
        r matches Err(reason) ==> refusal(*user, remote_port) == Some(reason@),
        r is Ok <==> exists|i: int|
            0 <= i < user.allow_remote_ports@.len() && (config::range_of(
                #[trigger] user.allow_remote_ports@[i]@,
            ) matches config::RangeView::Range { lo, hi } && lo <= remote_port && remote_port
                <= hi),
        r matches Err(reason) ==> reason@ == "remote port "@ + text::decimal(remote_port as nat)
            + " is not permitted for user "@ + text::quoted_text(user.name@),
{
    if !port_allowed(user, remote_port) {
        return Err(not_permitted_message(quoted(user.name.as_str()).as_str(), remote_port));
    }
    Ok(())
}

// ---------------------------------------------------------------------------
// The control conversation
// ---------------------------------------------------------------------------

/// The position of the first user with that name and token, or the number of
/// users, from `from` on.
pub open spec fn login_from(
    users: Seq<User>,
    name: Seq<char>,
    token: Seq<char>,
    from: nat,
) -> nat
    decreases users.len() - from,
{
    if from >= users.len() {
        users.len()
    } else if users[from as int].name@ == name && users[from as int].token@ == token {
        from
    } else {
        login_from(users, name, token, from + 1)
    }
}

/// The position of the first user with that name and token, or the number of
/// users.
pub open spec fn login_position(users: Seq<User>, name: Seq<char>, token: Seq<char>) -> nat {
    login_from(users, name, token, 0)
}

/// Finds the first user with that name and token.
fn find_login(users: &Vec<User>, name: &str, token: &str) -> (r: usize)
    ensures
        r == login_position(users@, name@, token@),
        r <= users@.len(),
{
    let mut i: usize = 0;
    while i < users.len()
        invariant
            i <= users@.len(),
            login_from(users@, name@, token@, i as nat) == login_position(users@, name@, token@),
        decreases users@.len() - i,
    {
        if same_text(users[i].name.as_str(), name) && same_text(users[i].token.as_str(), token) {
            return i;
        }
        i += 1;
    }
    i
}

/// What the server is waiting for on a tunnel.
#[derive(Debug)]
pub enum ServerPhase {
    /// The login.
    AwaitingLogin,
    /// Requests of the user with this position.
    Serving { user: usize },
    /// The outcome of binding a public port for a proxy.
    Binding { user: usize, name: String, kind: ProxyKind, remote_port: u16 },
    /// Nothing any more.
    Closed,
}

/// A [`ServerPhase`] by the characters of its texts.
pub enum PhaseView {
    AwaitingLogin,
    Serving { user: usize },
    Binding { user: usize, name: Seq<char>, kind: ProxyKind, remote_port: u16 },
    Closed,
}

impl View for ServerPhase {
    type V = PhaseView;

    open spec fn view(&self) -> PhaseView {
        match *self {
            ServerPhase::AwaitingLogin => PhaseView::AwaitingLogin,
            ServerPhase::Serving { user } => PhaseView::Serving { user },
            ServerPhase::Binding { user, name, kind, remote_port } => PhaseView::Binding {
                user,
                name: name@,
                kind,
                remote_port,
            },
            ServerPhase::Closed => PhaseView::Closed,
        }
    }
}

/// What the server does about an event on a tunnel.
#[derive(Debug)]
pub enum ServerAction {
    /// Send this message and wait for the next one.
    Send(ControlMsg),
    /// Send this message and end the tunnel.
    SendAndClose(ControlMsg),
    /// Bind this public port, of this protocol, for the proxy with this name, and
    /// report how it went.
    Bind { name: String, kind: ProxyKind, remote_port: u16 },
    /// Wait for the next message.
    Nothing,
    /// End the tunnel with an error: this is no login.
    ExpectedLogin(ControlMsg),
    /// End the tunnel and tear down its public listeners.
    Close,
}

/// A [`ServerAction`] by the characters of its texts.
pub enum ActionView {
    Send(MsgView),
    SendAndClose(MsgView),
    Bind { name: Seq<char>, kind: ProxyKind, remote_port: u16 },
    Nothing,
    ExpectedLogin(MsgView),
    Close,
}

impl View for ServerAction {
    type V = ActionView;

    open spec fn view(&self) -> ActionView {
        match *self {
            ServerAction::Send(msg) => ActionView::Send(msg@),
            ServerAction::SendAndClose(msg) => ActionView::SendAndClose(msg@),
            ServerAction::Bind { name, kind, remote_port } => ActionView::Bind {
                name: name@,
                kind,
                remote_port,
            },
            ServerAction::Nothing => ActionView::Nothing,
            ServerAction::ExpectedLogin(msg) => ActionView::ExpectedLogin(msg@),
            ServerAction::Close => ActionView::Close,
        }
    }
}

/// The reply to a login that is not accepted.
pub open spec fn login_rejection() -> MsgView {
    MsgView::LoginErr { reason: "invalid username or token"@ }
}

impl PhaseView {
    /// Whether the phase is one that a server with `users` users gets into.
    pub open spec fn wf(self, users: nat) -> bool {
        match self {
            PhaseView::Serving { user } => user < users,
            PhaseView::Binding { user, .. } => user < users,
            _ => true,
        }
    }

    /// The phase after the client's message `msg`.
    pub open spec fn after(self, cfg: ServerConfig, msg: MsgView) -> PhaseView {
        match (self, msg) {
            (PhaseView::AwaitingLogin, MsgView::Login { username, token }) => {
                let user = login_position(cfg.users@, username, token);
                if user < cfg.users@.len() {
                    PhaseView::Serving { user: user as usize }
                } else {
                    PhaseView::Closed
                }
            },
            (PhaseView::AwaitingLogin, _) => PhaseView::Closed,
            (
                PhaseView::Serving { user },
                MsgView::RegisterProxy { name, kind, remote_port },
            ) => if refusal(cfg.users@[user as int], remote_port) is None {
                PhaseView::Binding { user, name, kind, remote_port }
            } else {
                self
            },
            _ => self,
        }
    }

    /// What the server does about the client's message `msg`.
    pub open spec fn reaction(self, cfg: ServerConfig, msg: MsgView) -> ActionView {
        match self {
            PhaseView::AwaitingLogin => match msg {
                MsgView::Login { username, token } => if login_position(
                    cfg.users@,
                    username,
                    token,
                ) < cfg.users@.len() {
                    ActionView::Send(MsgView::LoginOk)
                } else {
                    ActionView::SendAndClose(login_rejection())
                },
                _ => ActionView::ExpectedLogin(msg),
            },
            PhaseView::Serving { user } => match msg {
                MsgView::RegisterProxy { name, kind, remote_port } => match refusal(
                    cfg.users@[user as int],
                    remote_port,
                ) {
                    Some(reason) => ActionView::Send(MsgView::RegisterErr { name, reason }),
                    None => ActionView::Bind { name, kind, remote_port },
                },
                MsgView::Ping => ActionView::Send(MsgView::Pong),
                _ => ActionView::Nothing,
            },
            _ => ActionView::Nothing,
        }
    }

    /// The reply once binding the public port has worked, or has not.
    pub open spec fn binding_reply(self, bound: bool) -> MsgView
        recommends
            self is Binding,
    {
        let name = self->Binding_name;
        let remote_port = self->Binding_remote_port;
        if bound {
            MsgView::RegisterOk { name, remote_port }
        } else {
            MsgView::RegisterErr { name, reason: not_bound_text(remote_port) }
        }
    }
}

/// The server's side of the control conversation on one tunnel.
#[derive(Debug)]
pub struct ServerSession {
    pub phase: ServerPhase,
}

impl View for ServerSession {
    type V = PhaseView;

    open spec fn view(&self) -> PhaseView {
        self.phase@
    }
}

impl ServerSession {
    /// A tunnel that has just been opened.
    pub fn new() -> (s: ServerSession)
        ensures
            s@ == PhaseView::AwaitingLogin,
            s.phase is AwaitingLogin,
    {
        ServerSession { phase: ServerPhase::AwaitingLogin }
    }

    /// The position of the user who is logged in.
    pub fn user(&self) -> (r: Option<usize>)
        ensures
            r == match self@ {
                PhaseView::Serving { user } => Some(user),
                PhaseView::Binding { user, .. } => Some(user),
                _ => None,
            },
            r == match self.phase {
                ServerPhase::Serving { user } => Some(user),
                ServerPhase::Binding { user, .. } => Some(user),
                _ => None,
            },
    {
        match &self.phase {
            ServerPhase::Serving { user } => Some(*user),
            ServerPhase::Binding { user, .. } => Some(*user),
            _ => None,
        }
    }

    /// Takes the client's next message on the control substream. Messages are
    /// not read while a port is being bound.
    ///
    /// The first message must be a login with a configured name and token. Then
    /// registrations are answered, with the reason if they are refused, pings are
    /// answered, and everything else is ignored.
    pub fn on_message(&mut self, cfg: &ServerConfig, msg: ControlMsg) -> (r: ServerAction)
        requires
            old(self)@.wf(cfg.users@.len()),
            old(self)@ is AwaitingLogin || old(self)@ is Serving,
        ensures
            final(self)@.wf(cfg.users@.len()),
            final(self)@ == old(self)@.after(*cfg, msg@),
            r@ == old(self)@.reaction(*cfg, msg@),
            r matches ServerAction::Bind { name, kind, remote_port } ==> {
                &&& old(self).phase is Serving
                &&& msg matches ControlMsg::RegisterProxy { name: n, kind: k, remote_port: p }
                    && name@ == n@ && kind == k && remote_port == p
                &&& final(self).phase matches ServerPhase::Binding {
                    user,
                    name: n,
                    kind: k,
                    remote_port: p,
                } && user == old(self).phase->Serving_user && name@ == n@ && kind == k
                    && remote_port == p
                &&& exists|i: int|
                    0 <= i < cfg.users@[old(
                        self,
                    ).phase->Serving_user as int].allow_remote_ports@.len() && (config::range_of(
                        #[trigger] cfg.users@[old(
                            self,
                        ).phase->Serving_user as int].allow_remote_ports@[i]@,
                    ) matches config::RangeView::Range { lo, hi } && lo <= remote_port
                        && remote_port <= hi)
            },
            r matches ServerAction::Send(ControlMsg::RegisterErr { name, reason }) ==> {
                &&& msg matches ControlMsg::RegisterProxy { name: n, kind, remote_port } && name@
                    == n@ && reason@ == "remote port "@ + text::decimal(remote_port as nat)
                    + " is not permitted for user "@ + text::quoted_text(
                    cfg.users@[old(self).phase->Serving_user as int].name@,
                )
            },
            r matches ServerAction::Send(reply) ==> reply is LoginOk || reply is Pong || reply
                is RegisterErr,
            old(self).phase is AwaitingLogin && final(self).phase is Serving ==> (
            msg matches ControlMsg::Login { username, token } && username@
                == cfg.users@[final(self).phase->Serving_user as int].name@ && token@
                == cfg.users@[final(self).phase->Serving_user as int].token@),
            old(self).phase is AwaitingLogin ==> (match msg {
                ControlMsg::Login { username, token } => {
                    let known = exists|i: int|
                        0 <= i < cfg.users@.len() && (#[trigger] cfg.users@[i]).name@ == username@
                            && cfg.users@[i].token@ == token@;
                    &&& known ==> (r matches ServerAction::Send(ControlMsg::LoginOk)
                        && final(self).phase is Serving)
                    &&& !known ==> (r matches ServerAction::SendAndClose(
                        ControlMsg::LoginErr { reason },
                    ) && reason@ == "invalid username or token"@ && final(self).phase is Closed)
                },
                _ => r is ExpectedLogin && r->ExpectedLogin_0 == msg && final(self).phase is Closed,
            }),
            old(self).phase is Serving ==> (match msg {
                ControlMsg::RegisterProxy { name, kind, remote_port } => {
                    let entries = cfg.users@[old(
                        self,
                    ).phase->Serving_user as int].allow_remote_ports@;
                    let permitted = exists|i: int|
                        0 <= i < entries.len() && (config::range_of(
                            #[trigger] entries[i]@,
                        ) matches config::RangeView::Range { lo, hi } && lo <= remote_port
                            && remote_port <= hi);
                    &&& permitted <==> r is Bind
                    &&& !permitted <==> r matches ServerAction::Send(ControlMsg::RegisterErr { .. })
                },
                ControlMsg::Ping => r matches ServerAction::Send(ControlMsg::Pong),
                _ => r is Nothing,
            }),
            old(self).phase is Serving && !(r is Bind) ==> final(self).phase == old(self).phase,
    {
        proof {
            if let ServerPhase::Serving { user } = self.phase {
                if let ControlMsg::RegisterProxy { remote_port, .. } = msg {
                    permitted_ports_lie_within_a_range(cfg.users@[user as int], remote_port);
                }
            }
            if let ControlMsg::Login { username, token } = &msg {
                login_needs_name_and_token(*cfg, username@, token@);
            }
        }
        match &self.phase {
            ServerPhase::AwaitingLogin => match msg {
                ControlMsg::Login { username, token } => {
                    let user: usize = find_login(&cfg.users, username.as_str(), token.as_str());
                    if user < cfg.users.len() {
                        self.phase = ServerPhase::Serving { user };
                        ServerAction::Send(ControlMsg::LoginOk)
                    } else {
                        self.phase = ServerPhase::Closed;
                        ServerAction::SendAndClose(
                            ControlMsg::LoginErr { reason: "invalid username or token".to_owned() },
                        )
                    }
                },
                other => {
                    self.phase = ServerPhase::Closed;
                    ServerAction::ExpectedLogin(other)
                },
            },
            ServerPhase::Serving { user } => {
                let user: usize = *user;
                match msg {
                    ControlMsg::RegisterProxy { name, kind, remote_port } => {
                        match register_proxy(&cfg.users[user], remote_port) {
                            Ok(()) => {
                                self.phase = ServerPhase::Binding {
                                    user,
                                    name: name.clone(),
                                    kind,
                                    remote_port,
                                };
                                ServerAction::Bind { name, kind, remote_port }
                            },
                            Err(reason) => ServerAction::Send(
                                ControlMsg::RegisterErr { name, reason },
                            ),
                        }
                    },
                    ControlMsg::Ping => ServerAction::Send(ControlMsg::Pong),
                    _ => ServerAction::Nothing,
                }
            },
            _ => ServerAction::Nothing,
        }
    }

    /// Takes the outcome of binding the public port that was asked for, and
    /// answers the registration.
    pub fn on_bound(&mut self, bound: bool) -> (r: ServerAction)
        requires
            old(self)@ is Binding,
        ensures
            final(self)@ == (PhaseView::Serving { user: old(self)@->Binding_user }),
            r@ == ActionView::Send(old(self)@.binding_reply(bound)),
            bound ==> (r matches ServerAction::Send(ControlMsg::RegisterOk { name, remote_port })
                && name@ == old(self)@->Binding_name && remote_port == old(
                self,
            )@->Binding_remote_port),
            !bound ==> (r matches ServerAction::Send(ControlMsg::RegisterErr { name, reason })
                && name@ == old(self)@->Binding_name && reason@ == "binding public port "@
                + text::decimal(old(self)@->Binding_remote_port as nat)),
            old(self).phase is Binding,
            final(self).phase == (ServerPhase::Serving { user: old(self).phase->Binding_user }),
            bound ==> (r matches ServerAction::Send(ControlMsg::RegisterOk { name, remote_port })
                && name@ == old(self).phase->Binding_name@ && remote_port == old(
                self,
            ).phase->Binding_remote_port),
            !bound ==> (r matches ServerAction::Send(ControlMsg::RegisterErr { name, reason })
                && name@ == old(self).phase->Binding_name@),
    {
        match &self.phase {
            ServerPhase::Binding { user, name, remote_port, .. } => {
                let user: usize = *user;
                let name = name.clone();
                let remote_port: u16 = *remote_port;
                self.phase = ServerPhase::Serving { user };
                if bound {
                    ServerAction::Send(ControlMsg::RegisterOk { name, remote_port })
                } else {
                    let mut reason = "binding public port ".to_owned();
                    reason.append(number(remote_port as u64).as_str());
                    ServerAction::Send(ControlMsg::RegisterErr { name, reason })
                }
            },
            _ => ServerAction::Nothing,
        }
    }

    /// Notes that the control substream has ended.
    pub fn on_closed(&mut self) -> (r: ServerAction)
        ensures
            final(self)@ == PhaseView::Closed,
            r@ == ActionView::Close,
            final(self).phase is Closed,
            r is Close,
    {
        self.phase = ServerPhase::Closed;
        ServerAction::Close
    }
}

// ---------------------------------------------------------------------------
// What holds of every tunnel
// ---------------------------------------------------------------------------

/// A public port is only ever bound for a user who is logged in, for the proxy
/// that was asked for, and only if the user is permitted that port.
pub proof fn only_permitted_ports_are_bound(
    cfg: ServerConfig,
    phase: PhaseView,
    msg: MsgView,
)
    requires
        phase.wf(cfg.users@.len()),
        phase.reaction(cfg, msg) is Bind,
    ensures
        phase is Serving,
        msg is RegisterProxy,
        allows(cfg.users@[phase->Serving_user as int], msg->RegisterProxy_remote_port),
        phase.reaction(cfg, msg) == (ActionView::Bind {
            name: msg->RegisterProxy_name,
            kind: msg->RegisterProxy_kind,
            remote_port: msg->RegisterProxy_remote_port,
        }),
{
}

/// Any service can be exposed: a proxy of either protocol, on a port that the user
/// is permitted, goes live as soon as that port could be bound.
pub proof fn permitted_proxies_go_live(
    cfg: ServerConfig,
    user: usize,
    name: Seq<char>,
    kind: ProxyKind,
    remote_port: u16,
)
    requires
        user < cfg.users@.len(),
        allows(cfg.users@[user as int], remote_port),
    ensures
        ({
            let phase = PhaseView::Serving { user };
            let msg = MsgView::RegisterProxy { name, kind, remote_port };
            &&& phase.reaction(cfg, msg) == (ActionView::Bind { name, kind, remote_port })
            &&& phase.after(cfg, msg).binding_reply(true) == (MsgView::RegisterOk {
                name,
                remote_port,
            })
        }),
{
}

/// The name that a reply to a registration carries.
pub open spec fn reply_name(reply: MsgView) -> Option<Seq<char>> {
    match reply {
        MsgView::RegisterOk { name, .. } => Some(name),
        MsgView::RegisterErr { name, .. } => Some(name),
        _ => None,
    }
}

/// Every registration is answered exactly once and under its own name: at once
/// when it is refused, else when it is known whether the port could be bound.
/// Afterwards the same user is served on.
pub proof fn every_registration_is_answered(
    cfg: ServerConfig,
    user: usize,
    name: Seq<char>,
    kind: ProxyKind,
    remote_port: u16,
    bound: bool,
)
    requires
        user < cfg.users@.len(),
    ensures
        ({
            let phase = PhaseView::Serving { user };
            let msg = MsgView::RegisterProxy { name, kind, remote_port };
            let next = phase.after(cfg, msg);
            match phase.reaction(cfg, msg) {
                ActionView::Send(reply) => {
                    &&& reply is RegisterErr
                    &&& reply_name(reply) == Some(name)
                    &&& next == phase
                },
                ActionView::Bind { .. } => {
                    &&& next is Binding && next->Binding_user == user
                    &&& reply_name(next.binding_reply(bound)) == Some(name)
                    &&& next.binding_reply(bound) is RegisterOk <==> bound
                },
                _ => false,
            }
        }),
{
}

/// What a registration is answered: the port it asked for once it is bound, why it
/// could not be bound, or which port the user may not have.
pub proof fn answers_say_what_became_of_the_registration(
    cfg: ServerConfig,
    user: usize,
    name: Seq<char>,
    kind: ProxyKind,
    remote_port: u16,
)
    requires
        user < cfg.users@.len(),
    ensures
        ({
            let phase = PhaseView::Serving { user };
            let msg = MsgView::RegisterProxy { name, kind, remote_port };
            let next = phase.after(cfg, msg);
            &&& allows(cfg.users@[user as int], remote_port) ==> {
                &&& next == (PhaseView::Binding { user, name, kind, remote_port })
                &&& next.binding_reply(true) == (MsgView::RegisterOk { name, remote_port })
                &&& next.binding_reply(false) == (MsgView::RegisterErr {
                    name,
                    reason: "binding public port "@ + text::decimal(remote_port as nat),
                })
            }
            &&& !allows(cfg.users@[user as int], remote_port) ==> {
                &&& next == phase
                &&& phase.reaction(cfg, msg) == ActionView::Send(
                    MsgView::RegisterErr {
                        name,
                        reason: "remote port "@ + text::decimal(remote_port as nat)
                            + " is not permitted for user "@ + text::quoted_text(
                            cfg.users@[user as int].name@,
                        ),
                    },
                )
            }
        }),
{
}

/// What the server does about everything else: a login is accepted or rejected
/// with a fixed reason, which ends the tunnel; anything else in its place ends the
/// tunnel too; afterwards pings are answered and the rest is ignored, and the
/// same user is served on.
pub proof fn other_messages_change_nothing(cfg: ServerConfig, user: usize, msg: MsgView)
    requires
        user < cfg.users@.len(),
    ensures
        !(msg is Login) ==> PhaseView::AwaitingLogin.reaction(cfg, msg)
            == ActionView::ExpectedLogin(msg) && PhaseView::AwaitingLogin.after(cfg, msg) is Closed,
        msg is Login && PhaseView::AwaitingLogin.after(cfg, msg) is Serving
            ==> PhaseView::AwaitingLogin.reaction(cfg, msg) == ActionView::Send(MsgView::LoginOk),
        msg is Login && !(PhaseView::AwaitingLogin.after(cfg, msg) is Serving) ==> {
            &&& PhaseView::AwaitingLogin.after(cfg, msg) is Closed
            &&& PhaseView::AwaitingLogin.reaction(cfg, msg) == ActionView::SendAndClose(
                MsgView::LoginErr { reason: "invalid username or token"@ },
            )
        },
        msg is Ping ==> (PhaseView::Serving { user }).reaction(cfg, msg) == ActionView::Send(
            MsgView::Pong,
        ),
        !(msg is Ping) && !(msg is RegisterProxy) ==> (PhaseView::Serving { user }).reaction(
            cfg,
            msg,
        ) is Nothing,
        !(msg is RegisterProxy) ==> (PhaseView::Serving { user }).after(cfg, msg)
            == (PhaseView::Serving { user }),
{
}

/// Nobody gets past the login without the name and the token of one and the same
/// configured user, and everyone who has them does.
pub proof fn login_needs_name_and_token(cfg: ServerConfig, username: Seq<char>, token: Seq<char>)
    ensures
        PhaseView::AwaitingLogin.after(cfg, MsgView::Login { username, token }) is Serving <==> (
        exists|i: int|
            0 <= i < cfg.users@.len() && (#[trigger] cfg.users@[i]).name@ == username
                && cfg.users@[i].token@ == token),
        PhaseView::AwaitingLogin.after(cfg, MsgView::Login { username, token }) matches
            PhaseView::Serving { user } ==> cfg.users@[user as int].name@ == username
            && cfg.users@[user as int].token@ == token,
{
    assert(cfg.users.len() == cfg.users@.len());
    lemma_login_from(cfg.users@, username, token, 0);
}

/// A login stands for the first user in the list who has that name and that token,
/// and fails exactly if there is none.
pub proof fn logins_stand_for_the_first_match(
    users: Seq<User>,
    name: Seq<char>,
    token: Seq<char>,
)
    requires
        users.len() <= usize::MAX,
    ensures
        login_position(users, name, token) <= users.len(),
        login_position(users, name, token) < users.len() ==> {
            let user = users[login_position(users, name, token) as int];
            user.name@ == name && user.token@ == token
        },
        forall|i: int|
            0 <= i < login_position(users, name, token) ==> !((#[trigger] users[i]).name@ == name
                && users[i].token@ == token),
{
    lemma_login_from(users, name, token, 0);
}

proof fn lemma_login_from(users: Seq<User>, name: Seq<char>, token: Seq<char>, from: nat)
    requires
        from <= users.len() <= usize::MAX,
    ensures
        from <= login_from(users, name, token, from) <= users.len(),
        login_from(users, name, token, from) < users.len() ==> users[login_from(
            users,
            name,
            token,
            from,
        ) as int].name@ == name && users[login_from(users, name, token, from) as int].token@
            == token,
        forall|i: int|
            from <= i < login_from(users, name, token, from) ==> !((#[trigger] users[i]).name@
                == name && users[i].token@ == token),
    decreases users.len() - from,
{
    if from < users.len() && !(users[from as int].name@ == name && users[from as int].token@
        == token) {
        lemma_login_from(users, name, token, from + 1);
    }
}

// ---------------------------------------------------------------------------
// Starting up
// ---------------------------------------------------------------------------

/// A transport that is enabled: what tunnels come in on, and what the startup
/// banner reports.
#[derive(Debug)]
pub struct EnabledTransport {
    pub kind: TransportKind,
    pub bind: String,
    /// Of the WSS transport, the path.
    pub path: Option<String>,
}

/// What the startup banner reports.
#[derive(Debug)]
pub struct Startup {
    pub noise_pubkey: String,
    pub cert_fingerprint: String,
    pub transports: Vec<EnabledTransport>,
    pub user_count: usize,
}

/// Whether `t` reports the transport `kind` as it is configured.
pub open spec fn reports(t: EnabledTransport, kind: TransportKind, cfg: ServerConfig) -> bool {
    &&& t.kind == kind
    &&& match kind {
        TransportKind::Quic => t.bind@ == cfg.transports.quic->0.bind.text() && t.path is None,
        TransportKind::Wss => t.bind@ == cfg.transports.wss->0.bind.text() && (
        t.path matches Some(path) && path@ == cfg.transports.wss->0.path@),
        TransportKind::Tcp => t.bind@ == cfg.transports.tcp->0.bind.text() && t.path is None,
    }
}

/// A transport is reported with the address that its own block binds, and the WSS
/// transport alone with a path, which is its own too.
pub proof fn transports_are_reported_as_configured(
    t: EnabledTransport,
    kind: TransportKind,
    cfg: ServerConfig,
)
    requires
        reports(t, kind, cfg),
    ensures
        t.kind == kind,
        kind is Quic ==> t.bind@ == cfg.transports.quic->0.bind.host@ + ":"@ + text::decimal(
            cfg.transports.quic->0.bind.port as nat,
        ) && t.path is None,
        kind is Tcp ==> t.bind@ == cfg.transports.tcp->0.bind.host@ + ":"@ + text::decimal(
            cfg.transports.tcp->0.bind.port as nat,
        ) && t.path is None,
        kind is Wss ==> t.bind@ == cfg.transports.wss->0.bind.host@ + ":"@ + text::decimal(
            cfg.transports.wss->0.bind.port as nat,
        ) && t.path is Some && t.path->0@ == cfg.transports.wss->0.path@,
{
}

/// Lists the transports that are enabled: quic, wss, tcp.
pub fn enabled_transports(cfg: &ServerConfig) -> (r: Vec<EnabledTransport>)
    ensures
        r@.len() == enabled_kinds(*cfg).len(),
        forall|i: int|
            0 <= i < r@.len() ==> reports(
                #[trigger] r@[i],
                enabled_kinds(*cfg)[i],
                *cfg,
            ),
        ({
            let t = cfg.transports;
            let quic = t.quic is Some && t.quic->0.enabled;
            let wss = t.wss is Some && t.wss->0.enabled;
            let tcp = t.tcp is Some && t.tcp->0.enabled;
            &&& r@.len() == (if quic {
                1int
            } else {
                0
            }) + (if wss {
                1int
            } else {
                0
            }) + (if tcp {
                1int
            } else {
                0
            })
            &&& forall|i: int|
                0 <= i < r@.len() ==> (match (#[trigger] r@[i]).kind {
                    TransportKind::Quic => quic && r@[i].path is None && r@[i].bind@
                        == t.quic->0.bind.host@ + ":"@ + text::decimal(t.quic->0.bind.port as nat),
                    TransportKind::Wss => wss && r@[i].path is Some && r@[i].path->0@
                        == t.wss->0.path@ && r@[i].bind@ == t.wss->0.bind.host@ + ":"@
                        + text::decimal(t.wss->0.bind.port as nat),
                    TransportKind::Tcp => tcp && r@[i].path is None && r@[i].bind@
                        == t.tcp->0.bind.host@ + ":"@ + text::decimal(t.tcp->0.bind.port as nat),
                })
            &&& forall|i: int, j: int|
                0 <= i < j < r@.len() ==> ((#[trigger] r@[i]).kind is Quic && !((
                #[trigger] r@[j]).kind is Quic)) || (r@[i].kind is Wss && r@[j].kind is Tcp)
        }),
{
    let mut transports: Vec<EnabledTransport> = Vec::new();
    if let Some(quic) = &cfg.transports.quic {
        if quic.enabled {
            transports.push(
                EnabledTransport {
                    kind: TransportKind::Quic,
                    bind: quic.bind.to_text(),
                    path: None,
                },
            );
        }
    }
    if let Some(wss) = &cfg.transports.wss {
        if wss.enabled {
            transports.push(
                EnabledTransport {
                    kind: TransportKind::Wss,
                    bind: wss.bind.to_text(),
                    path: Some(wss.path.clone()),
                },
            );
        }
    }
    if let Some(tcp) = &cfg.transports.tcp {
        if tcp.enabled {
            transports.push(
                EnabledTransport {
                    kind: TransportKind::Tcp,
                    bind: tcp.bind.to_text(),
                    path: None,
                },
            );
        }
    }
    transports
}

/// What the tunnels of the relay come in on: every transport that is enabled.
/// Fails exactly when none is, which a configuration that is accepted rules out.
pub fn tunnel_listeners(cfg: &ServerConfig) -> (r: Result<Vec<EnabledTransport>, ConfigError>)
    ensures
        r is Ok <==> enabled_kinds(*cfg).len() > 0,
        config::objection(*cfg) is None ==> r is Ok,
        r matches Ok(listeners) ==> {
            let kinds = enabled_kinds(*cfg);
            &&& listeners@.len() == kinds.len()
            &&& forall|i: int|
                0 <= i < kinds.len() ==> reports(#[trigger] listeners@[i], kinds[i], *cfg)
        },
        r matches Err(e) ==> e is NoTransport,
        r is Ok <==> (cfg.transports.tcp is Some && cfg.transports.tcp->0.enabled) || (
        cfg.transports.quic is Some && cfg.transports.quic->0.enabled) || (
        cfg.transports.wss is Some && cfg.transports.wss->0.enabled),
        r matches Ok(listeners) ==> ({
            let t = cfg.transports;
            let quic = t.quic is Some && t.quic->0.enabled;
            let wss = t.wss is Some && t.wss->0.enabled;
            let tcp = t.tcp is Some && t.tcp->0.enabled;
            &&& listeners@.len() == (if quic {
                1int
            } else {
                0
            }) + (if wss {
                1int
            } else {
                0
            }) + (if tcp {
                1int
            } else {
                0
            })
            &&& forall|i: int|
                0 <= i < listeners@.len() ==> (match (#[trigger] listeners@[i]).kind {
                    TransportKind::Quic => quic && listeners@[i].path is None && listeners@[i].bind@
                        == t.quic->0.bind.host@ + ":"@ + text::decimal(t.quic->0.bind.port as nat),
                    TransportKind::Wss => wss && listeners@[i].path is Some && listeners@[i].path->0@
                        == t.wss->0.path@ && listeners@[i].bind@ == t.wss->0.bind.host@ + ":"@
                        + text::decimal(t.wss->0.bind.port as nat),
                    TransportKind::Tcp => tcp && listeners@[i].path is None && listeners@[i].bind@
                        == t.tcp->0.bind.host@ + ":"@ + text::decimal(t.tcp->0.bind.port as nat),
                })
            &&& forall|i: int, j: int|
                0 <= i < j < listeners@.len() ==> ((#[trigger] listeners@[i]).kind is Quic && !((
                #[trigger] listeners@[j]).kind is Quic)) || (listeners@[i].kind is Wss && listeners@[j].kind is Tcp)
        }),
{
    proof {
        listed_transports_are_the_enabled_ones(*cfg);
    }
    let listeners = enabled_transports(cfg);
    if listeners.len() == 0 {
        return Err(ConfigError::NoTransport);
    }
    Ok(listeners)
}

/// Tunnels come in over any mix of transports: a configuration that is accepted
/// gives a listener for exactly the transports that are enabled, whichever those
/// are.
pub proof fn every_enabled_transport_is_served(cfg: ServerConfig, listeners: Seq<EnabledTransport>)
    requires
        config::objection(cfg) is None,
        listeners.len() == enabled_kinds(cfg).len(),
        forall|i: int|
            0 <= i < listeners.len() ==> reports(#[trigger] listeners[i], enabled_kinds(cfg)[i], cfg),
    ensures
        listeners.len() > 0,
        forall|kind: TransportKind| #[trigger]
            cfg.transports.on(kind) <==> exists|i: int|
                0 <= i < listeners.len() && (#[trigger] listeners[i]).kind == kind,
{
    listed_transports_are_the_enabled_ones(cfg);
    let kinds = enabled_kinds(cfg);
    assert forall|kind: TransportKind| #[trigger]
        cfg.transports.on(kind) <==> exists|i: int|
            0 <= i < listeners.len() && (#[trigger] listeners[i]).kind == kind by {
        if cfg.transports.on(kind) {
            assert(kinds.contains(kind));
            let i = choose|i: int| 0 <= i < kinds.len() && kinds[i] == kind;
            assert(reports(listeners[i], kinds[i], cfg));
        }
        if exists|i: int| 0 <= i < listeners.len() && (#[trigger] listeners[i]).kind == kind {
            let i = choose|i: int| 0 <= i < listeners.len() && (#[trigger] listeners[i]).kind == kind;
            assert(reports(listeners[i], kinds[i], cfg));
            assert(kinds[i] == kind);
            assert(kinds.contains(kind));
        }
    }
}

/// Collects what the startup banner reports: the identity that clients pin, each
/// enabled transport (quic, wss, tcp), and how many users there are. Fails if
/// the stored certificate has no fingerprint.
pub fn startup(cfg: &ServerConfig, id: &ServerIdentity) -> (r: Result<Startup, PemError>)
    requires
        identity::encodable(id@.noise.1.len()),
    ensures
        r is Ok <==> identity::pem_der(id@.tls.0) is Some,
        r matches Ok(s) ==> {
            let kinds = enabled_kinds(*cfg);
            &&& s.noise_pubkey@ == identity::base64_text(id@.noise.1)
            &&& s.cert_fingerprint@ == identity::fingerprint(identity::pem_der(id@.tls.0)->0)
            &&& s.transports@.len() == kinds.len()
            &&& forall|i: int|
                0 <= i < kinds.len() ==> reports(#[trigger] s.transports@[i], kinds[i], *cfg)
            &&& s.user_count == cfg.users@.len()
        },
        r matches Ok(s) ==> ({
            let t = cfg.transports;
            let quic = t.quic is Some && t.quic->0.enabled;
            let wss = t.wss is Some && t.wss->0.enabled;
            let tcp = t.tcp is Some && t.tcp->0.enabled;
            &&& s.transports@.len() == (if quic {
                1int
            } else {
                0
            }) + (if wss {
                1int
            } else {
                0
            }) + (if tcp {
                1int
            } else {
                0
            })
            &&& forall|i: int|
                0 <= i < s.transports@.len() ==> (match (#[trigger] s.transports@[i]).kind {
                    TransportKind::Quic => quic && s.transports@[i].path is None && s.transports@[i].bind@
                        == t.quic->0.bind.host@ + ":"@ + text::decimal(t.quic->0.bind.port as nat),
                    TransportKind::Wss => wss && s.transports@[i].path is Some && s.transports@[i].path->0@
                        == t.wss->0.path@ && s.transports@[i].bind@ == t.wss->0.bind.host@ + ":"@
                        + text::decimal(t.wss->0.bind.port as nat),
                    TransportKind::Tcp => tcp && s.transports@[i].path is None && s.transports@[i].bind@
                        == t.tcp->0.bind.host@ + ":"@ + text::decimal(t.tcp->0.bind.port as nat),
                })
            &&& forall|i: int, j: int|
                0 <= i < j < s.transports@.len() ==> ((#[trigger] s.transports@[i]).kind is Quic && !((
                #[trigger] s.transports@[j]).kind is Quic)) || (s.transports@[i].kind is Wss && s.transports@[j].kind is Tcp)
        }),
{
    let noise_pubkey = id.noise_public_key_b64();
    let cert_fingerprint = match id.cert_fingerprint() {
        Ok(cert_fingerprint) => cert_fingerprint,
        Err(e) => return Err(e),
    };
    Ok(
        Startup {
            noise_pubkey,
            cert_fingerprint,
            transports: enabled_transports(cfg),
            user_count: cfg.users.len(),
        },
    )
}

/// The first frame of the data substream for a public connection of a proxy.
pub fn data_head(proxy: &str) -> (head: DataHead)
    ensures
        head.proxy@ == proxy@,
{
    DataHead { proxy: proxy.to_owned() }
}

} // verus!
