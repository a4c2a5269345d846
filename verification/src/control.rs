//! The control conversation as a whole: a client and a server of this protocol
//! talking to each other.

use vstd::prelude::*;

use crate::proto::MsgView;
use crate::srpc::client::{self, ClientPhase, ClientSession};
use crate::srpc::config::ClientConfig;
use crate::srpd::config::{self, ServerConfig};
use crate::srpd::server::{self, PhaseView};

verus! {

/// What the server comes to by the client's message `msg`, and its reply; `bound`
/// says whether the public port can be bound, if it comes to that.
pub open spec fn answer(
    cfg: ServerConfig,
    phase: PhaseView,
    msg: MsgView,
    bound: bool,
) -> (PhaseView, Option<MsgView>) {
    let next = phase.after(cfg, msg);
    match phase.reaction(cfg, msg) {
        server::ActionView::Send(reply) => (next, Some(reply)),
        server::ActionView::SendAndClose(reply) => (next, Some(reply)),
        server::ActionView::Bind { .. } => (
            PhaseView::Serving { user: next->Binding_user },
            Some(next.binding_reply(bound)),
        ),
        _ => (next, None),
    }
}

/// A client and a server in conversation.
pub struct Talk {
    pub client: ClientSession,
    pub server: PhaseView,
    /// The client's message on its way to the server.
    pub request: Option<MsgView>,
}

/// The conversation at its beginning: the client has sent its login.
pub open spec fn opening(ccfg: ClientConfig) -> Talk {
    Talk {
        client: ClientSession { phase: ClientPhase::LoggingIn, active: 0 },
        server: PhaseView::AwaitingLogin,
        request: Some(client::login_of(ccfg)),
    }
}

/// The conversation after the client's message has been answered and the client
/// has taken the answer.
pub open spec fn exchanged(
    ccfg: ClientConfig,
    scfg: ServerConfig,
    talk: Talk,
    bound: bool,
) -> Talk {
    let (phase, reply) = answer(scfg, talk.server, talk.request->0, bound);
    Talk {
        client: talk.client.after(ccfg, reply->0),
        server: phase,
        request: match talk.client.reaction(ccfg, reply->0) {
            client::ActionView::Send(msg) => Some(msg),
            _ => None,
        },
    }
}

/// Whether the two sides wait for the same thing.
pub open spec fn in_step(ccfg: ClientConfig, scfg: ServerConfig, talk: Talk) -> bool {
    &&& talk.client.wf(ccfg.proxies@.len())
    &&& talk.server.wf(scfg.users@.len())
    &&& match talk.client.phase {
        ClientPhase::LoggingIn => {
            &&& talk.server is AwaitingLogin
            &&& talk.request == Some(client::login_of(ccfg))
        },
        ClientPhase::Registering(i) => {
            &&& talk.server is Serving
            &&& talk.request == Some(client::registration_of(ccfg.proxies@[i as int]))
        },
        ClientPhase::Serving => talk.server is Serving && talk.request is None,
    }
}

/// The two sides never misunderstand each other: every message of the client is
/// answered with a reply it expects. Either the login is rejected, and the server
/// has ended the tunnel, or both go on in step.
pub proof fn replies_are_always_expected(
    ccfg: ClientConfig,
    scfg: ServerConfig,
    talk: Talk,
    bound: bool,
)
    requires
        in_step(ccfg, scfg, talk),
        talk.request is Some,
    ensures
        ({
            let (phase, reply) = answer(scfg, talk.server, talk.request->0, bound);
            &&& reply is Some
            &&& match talk.client.reaction(ccfg, reply->0) {
                client::ActionView::Send(_) => in_step(
                    ccfg,
                    scfg,
                    exchanged(ccfg, scfg, talk, bound),
                ),
                client::ActionView::Ready => in_step(
                    ccfg,
                    scfg,
                    exchanged(ccfg, scfg, talk, bound),
                ),
                client::ActionView::LoginRejected(reason) => {
                    &&& talk.client.phase is LoggingIn
                    &&& phase is Closed
                    &&& reason == "invalid username or token"@
                },
                _ => false,
            }
        }),
{
    assert(ccfg.proxies.len() == ccfg.proxies@.len());
    assert(scfg.users.len() == scfg.users@.len());
}

/// The conversation after `n` exchanges, where `bound` says of each whether the
/// public port could be bound.
pub open spec fn talk_after(
    ccfg: ClientConfig,
    scfg: ServerConfig,
    bound: spec_fn(nat) -> bool,
    n: nat,
) -> Talk
    decreases n,
{
    if n == 0 {
        opening(ccfg)
    } else {
        exchanged(
            ccfg,
            scfg,
            talk_after(ccfg, scfg, bound, (n - 1) as nat),
            bound((n - 1) as nat),
        )
    }
}

/// Whether the proxy with index `i` is granted to the user: it is not refused and
/// its port could be bound.
pub open spec fn granted(
    ccfg: ClientConfig,
    scfg: ServerConfig,
    bound: spec_fn(nat) -> bool,
    user: int,
    i: nat,
) -> bool {
    let rule = ccfg.proxies@[i as int];
    &&& server::refusal(scfg.users@[user], rule.remote_port) is None
    &&& bound(i + 1)
}

/// How many of the first `n` proxies are granted.
pub open spec fn granted_count(
    ccfg: ClientConfig,
    scfg: ServerConfig,
    bound: spec_fn(nat) -> bool,
    user: int,
    n: nat,
) -> nat
    decreases n,
{
    if n == 0 {
        0
    } else {
        granted_count(ccfg, scfg, bound, user, (n - 1) as nat) + if granted(
            ccfg,
            scfg,
            bound,
            user,
            (n - 1) as nat,
        ) {
            1nat
        } else {
            0
        }
    }
}

proof fn lemma_talk(
    ccfg: ClientConfig,
    scfg: ServerConfig,
    bound: spec_fn(nat) -> bool,
    user: usize,
    n: nat,
)
    requires
        n <= ccfg.proxies@.len(),
        user < scfg.users@.len(),
        server::login_position(scfg.users@, ccfg.security.username@, ccfg.security.token@) == user,
    ensures
        granted_count(ccfg, scfg, bound, user as int, n) <= n,
        talk_after(ccfg, scfg, bound, n + 1) == (Talk {
            client: ClientSession::at_proxy(
                ccfg,
                n,
                granted_count(ccfg, scfg, bound, user as int, n) as usize,
            ),
            server: PhaseView::Serving { user },
            request: if n < ccfg.proxies@.len() {
                Some(client::registration_of(ccfg.proxies@[n as int]))
            } else {
                None
            },
        }),
    decreases n,
{
    reveal_with_fuel(talk_after, 2);
    assert(ccfg.proxies.len() == ccfg.proxies@.len());
    if n > 0 {
        lemma_talk(ccfg, scfg, bound, user, (n - 1) as nat);
    }
}

/// A client whose name and token are configured gets through: after the login and
/// one exchange per proxy it serves, and the number of proxies it counts as
/// active is the number that the server has granted.
pub proof fn configured_clients_get_through(
    ccfg: ClientConfig,
    scfg: ServerConfig,
    bound: spec_fn(nat) -> bool,
)
    requires
        server::login_position(scfg.users@, ccfg.security.username@, ccfg.security.token@)
            < scfg.users@.len(),
    ensures
        ({
            let n = ccfg.proxies@.len();
            let user = server::login_position(
                scfg.users@,
                ccfg.security.username@,
                ccfg.security.token@,
            );
            let talk = talk_after(ccfg, scfg, bound, n + 1);
            &&& talk.client.phase is Serving
            &&& talk.client.active == granted_count(ccfg, scfg, bound, user as int, n)
            &&& talk.server == (PhaseView::Serving { user: user as usize })
            &&& talk.request is None
        }),
{
    let user = server::login_position(scfg.users@, ccfg.security.username@, ccfg.security.token@);
    assert(ccfg.proxies.len() == ccfg.proxies@.len());
    assert(scfg.users.len() == scfg.users@.len());
    lemma_talk(ccfg, scfg, bound, user as usize, ccfg.proxies@.len());
}

/// The server binds what the client has configured: once the client has logged in,
/// it asks for its proxies one by one, and for each of them the server binds the
/// proxy's own port, under its name and with its protocol, exactly if the port
/// lies within a range in the user's list. Otherwise it refuses that proxy by
/// name. In the end the client is told what became of it under the same name.
pub proof fn servers_bind_what_clients_configure(
    ccfg: ClientConfig,
    scfg: ServerConfig,
    bound: spec_fn(nat) -> bool,
    i: nat,
)
    requires
        server::login_position(scfg.users@, ccfg.security.username@, ccfg.security.token@)
            < scfg.users@.len(),
        i < ccfg.proxies@.len(),
    ensures
        ({
            let user = server::login_position(
                scfg.users@,
                ccfg.security.username@,
                ccfg.security.token@,
            ) as int;
            let rule = ccfg.proxies@[i as int];
            let entries = scfg.users@[user].allow_remote_ports@;
            let talk = talk_after(ccfg, scfg, bound, i + 1);
            let reaction = talk.server.reaction(scfg, talk.request->0);
            let permitted = exists|k: int|
                0 <= k < entries.len() && (config::range_of(
                    #[trigger] entries[k]@,
                ) matches config::RangeView::Range { lo, hi } && lo <= rule.remote_port
                    && rule.remote_port <= hi);
            let (phase, reply) = answer(scfg, talk.server, talk.request->0, bound(i + 1));
            &&& scfg.users@[user].name@ == ccfg.security.username@
            &&& scfg.users@[user].token@ == ccfg.security.token@
            &&& talk.request is Some
            &&& reaction is Bind <==> permitted
            &&& reaction is Bind ==> {
                &&& reaction->Bind_name == rule.name@
                &&& reaction->Bind_kind == rule.kind
                &&& reaction->Bind_remote_port == rule.remote_port
            }
            &&& permitted && bound(i + 1) ==> reply == Some(
                MsgView::RegisterOk { name: rule.name@, remote_port: rule.remote_port },
            )
            &&& !(permitted && bound(i + 1)) ==> reply is Some && reply->0 is RegisterErr
                && reply->0->RegisterErr_name == rule.name@
        }),
{
    let user = server::login_position(scfg.users@, ccfg.security.username@, ccfg.security.token@);
    let rule = ccfg.proxies@[i as int];
    assert(scfg.users.len() == scfg.users@.len());
    server::login_needs_name_and_token(scfg, ccfg.security.username@, ccfg.security.token@);
    lemma_talk(ccfg, scfg, bound, user as usize, i);
    server::permitted_ports_lie_within_a_range(scfg.users@[user as int], rule.remote_port);
}

/// A client whose name and token are not configured is told so and nothing else.
pub proof fn other_clients_are_rejected(ccfg: ClientConfig, scfg: ServerConfig, bound: bool)
    requires
        server::login_position(scfg.users@, ccfg.security.username@, ccfg.security.token@)
            >= scfg.users@.len(),
    ensures
        ({
            let talk = opening(ccfg);
            let (phase, reply) = answer(scfg, talk.server, talk.request->0, bound);
            &&& phase is Closed
            &&& reply == Some(server::login_rejection())
            &&& talk.client.reaction(ccfg, reply->0) == client::ActionView::LoginRejected(
                "invalid username or token"@,
            )
        }),
{
}

} // verus!
