//! Implementation of the `client-config` subcommand.

use vstd::prelude::*;
use vstd::string::*;

use super::config::{self, ServerConfig, User};
use super::readback;
use crate::basic_string::{self, append_escaped};
use crate::document;
use crate::identity::{self, IdentityView, PemError, ServerIdentity};
use crate::srpc;
use crate::srpc::config::ClientConfig;
use crate::text::{self, join, number, quoted, same_text};
use crate::types::TransportKind;

verus! {

/// Why no client configuration could be written.
pub enum RenderError {
    /// The user is not configured; the text says which are.
    UnknownUser(String),
    /// The stored certificate has no fingerprint.
    Certificate(PemError),
}

impl RenderError {
    /// What is said of the error.
    pub open spec fn text(self) -> Seq<char> {
        match self {
            RenderError::UnknownUser(text) => text@,
            RenderError::Certificate(_) => "decoding the stored TLS certificate"@,
        }
    }

    /// What is said of the error.
    pub fn message(&self) -> (s: String)
        ensures
            s@ == self.text(),
            s@ == match *self {
                RenderError::UnknownUser(text) => text@,
                RenderError::Certificate(_) => "decoding the stored TLS certificate"@,
            },
    {
        match self {
            RenderError::UnknownUser(text) => text.clone(),
            RenderError::Certificate(_) => "decoding the stored TLS certificate".to_owned(),
        }
    }
}

// ---------------------------------------------------------------------------
// Helpers
// ---------------------------------------------------------------------------

/// What stands for the server's host where none is known.
pub const HOST_PLACEHOLDER: &'static str = "<server-public-host>";

/// The server's host as a client is told it: what was asked for, else what is
/// configured, else a placeholder.
pub open spec fn host_of(cfg: ServerConfig, host_override: Option<&str>) -> Seq<char> {
    match host_override {
        Some(h) => h@,
        None => match cfg.public_host {
            Some(h) => h@,
            None => HOST_PLACEHOLDER@,
        },
    }
}

/// Determines the server_host value for the client config.
pub fn resolve_host<'a>(cfg: &'a ServerConfig, host_override: Option<&'a str>) -> (r: &'a str)
    ensures
        r@ == host_of(*cfg, host_override),
        r@ == match host_override {
            Some(h) => h@,
            None => match cfg.public_host {
                Some(h) => h@,
                None => "<server-public-host>"@,
            },
        },
{
    if let Some(h) = host_override {
        return h;
    }
    if let Some(h) = &cfg.public_host {
        return h.as_str();
    }
    HOST_PLACEHOLDER
}

/// The first user with that name.
pub open spec fn user_named(users: Seq<User>, name: Seq<char>) -> Option<User>
    decreases users.len(),
{
    if users.len() == 0 {
        None
    } else if users[0].name@ == name {
        Some(users[0])
    } else {
        user_named(users.skip(1), name)
    }
}

/// The user of a name is the first in the list whose whole name is that name, and
/// there is none exactly if nobody has it.
pub proof fn users_are_found_by_their_whole_name(users: Seq<User>, name: Seq<char>)
    ensures
        user_named(users, name) is None <==> forall|i: int|
            0 <= i < users.len() ==> (#[trigger] users[i]).name@ != name,
        user_named(users, name) is Some ==> exists|i: int|
            0 <= i < users.len() && user_named(users, name) == Some(#[trigger] users[i])
                && users[i].name@ == name && forall|j: int|
                0 <= j < i ==> (#[trigger] users[j]).name@ != name,
        user_named(users, name) is Some ==> user_named(users, name)->0.name@ == name,
    decreases users.len(),
{
    if users.len() > 0 && users[0].name@ != name {
        let rest = users.skip(1);
        users_are_found_by_their_whole_name(rest, name);
        if user_named(rest, name) is Some {
            let i = choose|i: int|
                0 <= i < rest.len() && user_named(rest, name) == Some(#[trigger] rest[i])
                    && rest[i].name@ == name && forall|j: int|
                    0 <= j < i ==> (#[trigger] rest[j]).name@ != name;
            assert(users[i + 1] == rest[i]);
            assert forall|j: int| 0 <= j < i + 1 implies (#[trigger] users[j]).name@ != name by {
                if j > 0 {
                    assert(rest[j - 1] == users[j]);
                }
            }
        } else {
            assert forall|j: int| 0 <= j < users.len() implies (#[trigger] users[j]).name@
                != name by {
                if j > 0 {
                    assert(rest[j - 1] == users[j]);
                }
            }
        }
    } else if users.len() > 0 {
        assert(user_named(users, name) == Some(users[0]));
    }
}

/// Finds the first user with that name.
pub fn find_user<'a>(users: &'a Vec<User>, name: &str) -> (r: Option<&'a User>)
    ensures
        r is Some <==> user_named(users@, name@) is Some,
        r matches Some(user) ==> user_named(users@, name@) == Some(*user),
        r is None <==> forall|i: int|
            0 <= i < users@.len() ==> (#[trigger] users@[i]).name@ != name@,
        r matches Some(user) ==> exists|i: int|
            0 <= i < users@.len() && *user == #[trigger] users@[i] && users@[i].name@ == name@
                && forall|j: int| 0 <= j < i ==> (#[trigger] users@[j]).name@ != name@,
{
    proof {
        users_are_found_by_their_whole_name(users@, name@);
    }
    let mut i: usize = 0;
    assert(users@.skip(0) =~= users@);
    while i < users.len()
        invariant
            i <= users@.len(),
            user_named(users@.skip(i as int), name@) == user_named(users@, name@),
        decreases users@.len() - i,
    {
        if same_text(users[i].name.as_str(), name) {
            proof {
                users_are_found_by_their_whole_name(users@, name@);
                assert(user_named(users@, name@) == Some(users@[i as int]));
            }
            return Some(&users[i]);
        }
        assert(users@.skip(i as int).skip(1) =~= users@.skip(i + 1));
        i += 1;
    }
    None
}

/// The names of the users, separated by commas.
fn list_names(users: &Vec<User>) -> (r: String)
    ensures
        r@ == text::joined(config::user_names(users@), ", "@),
{
    let mut names: Vec<String> = Vec::new();
    let mut i: usize = 0;
    while i < users.len()
        invariant
            i <= users@.len(),
            names@.len() == i,
            forall|j: int| 0 <= j < i ==> names@[j]@ == #[trigger] users@[j].name@,
        decreases users@.len() - i,
    {
        names.push(users[i].name.clone());
        i += 1;
    }
    assert(text::texts(names@) =~= config::user_names(users@));
    join(&names, ", ")
}

/// What is said when the user, whose name is given in quotes, is not configured.
pub open spec fn not_found_text(users: Seq<User>, quoted_name: Seq<char>) -> Seq<char> {
    "user "@ + quoted_name + " not found; available users: "@ + if users.len() == 0 {
        "(none configured)"@
    } else {
        text::joined(config::user_names(users), ", "@)
    }
}

/// What is said when the user is not configured.
pub open spec fn unknown_user_text(users: Seq<User>, name: Seq<char>) -> Seq<char> {
    not_found_text(users, text::quoted_text(name))
}

/// A name that is not known is answered with the names that are, with commas
/// between them.
pub proof fn unknown_users_are_told_who_is_known(users: Seq<User>, name: Seq<char>)
    ensures
        ({
            let said = "user "@ + text::quoted_text(name) + " not found; available users: "@;
            let names = Seq::new(users.len(), |i: int| users[i].name@);
            &&& users.len() == 0 ==> unknown_user_text(users, name) == said + "(none configured)"@
            &&& users.len() > 0 ==> unknown_user_text(users, name) == said + text::joined(
                names,
                ", "@,
            )
        }),
{
    assert(config::user_names(users) =~= Seq::new(users.len(), |i: int| users[i].name@));
}

/// What is said when the user, whose name is given in quotes, is not configured.
pub fn not_found_message(users: &Vec<User>, quoted_name: &str) -> (s: String)
    ensures
        s@ == not_found_text(users@, quoted_name@),
        s@ == "user "@ + quoted_name@ + " not found; available users: "@ + if users@.len() == 0 {
            "(none configured)"@
        } else {
            text::joined(Seq::new(users@.len(), |i: int| users@[i].name@), ", "@)
        },
{
    assert(config::user_names(users@) =~= Seq::new(users@.len(), |i: int| users@[i].name@));
    let mut s = "user ".to_owned();
    s.append(quoted_name);
    s.append(" not found; available users: ");
    if users.len() == 0 {
        s.append("(none configured)");
    } else {
        s.append(list_names(users).as_str());
    }
    s
}

// ---------------------------------------------------------------------------
// Full srpc.toml output
// ---------------------------------------------------------------------------

/// The transports that are enabled, in the order in which clients try them:
/// quic, wss, tcp.
pub open spec fn enabled_kinds(cfg: ServerConfig) -> Seq<TransportKind> {
    let quic = if cfg.transports.on(TransportKind::Quic) {
        seq![TransportKind::Quic]
    } else {
        Seq::empty()
    };
    let wss = if cfg.transports.on(TransportKind::Wss) {
        seq![TransportKind::Wss]
    } else {
        Seq::empty()
    };
    let tcp = if cfg.transports.on(TransportKind::Tcp) {
        seq![TransportKind::Tcp]
    } else {
        Seq::empty()
    };
    quic + wss + tcp
}

/// The transports that are enabled, in the order in which clients try them.
pub fn priority(cfg: &ServerConfig) -> (kinds: Vec<TransportKind>)
    ensures
        kinds@ == enabled_kinds(*cfg),
{
    let mut kinds: Vec<TransportKind> = Vec::new();
    if cfg.transports.is_enabled(TransportKind::Quic) {
        kinds.push(TransportKind::Quic);
    }
    if cfg.transports.is_enabled(TransportKind::Wss) {
        kinds.push(TransportKind::Wss);
    }
    if cfg.transports.is_enabled(TransportKind::Tcp) {
        kinds.push(TransportKind::Tcp);
    }
    assert(kinds@ =~= enabled_kinds(*cfg));
    kinds
}

/// The names of the transports, each in double quotes.
pub open spec fn quoted_kinds(kinds: Seq<TransportKind>) -> Seq<Seq<char>> {
    Seq::new(kinds.len(), |i: int| "\""@ + kinds[i].name() + "\""@)
}

/// The comment at the top.
pub open spec fn header(placeholder: bool) -> Seq<char> {
    let head = "# srpc.toml — client configuration for rs_srpc\n"@ + "#\n"@
        + "# WARNING: this file contains secrets (token, server_secret).\n"@
        + "# Save it as srpc.toml and restrict its permissions (chmod 600).\n"@ + "#\n"@;
    if placeholder {
        head
            + "# NOTE: server_host is a placeholder — fill in the server's public address.\n"@
            + "#\n"@
    } else {
        head
    }
}

/// A file begins with a warning that it holds secrets, and points out a host that
/// is only a placeholder, and no other.
pub proof fn files_begin_with_a_warning(placeholder: bool)
    ensures
        header(placeholder) == "# srpc.toml — client configuration for rs_srpc\n"@ + "#\n"@
            + "# WARNING: this file contains secrets (token, server_secret).\n"@
            + "# Save it as srpc.toml and restrict its permissions (chmod 600).\n"@ + "#\n"@ + (
        if placeholder {
            "# NOTE: server_host is a placeholder — fill in the server's public address.\n"@
                + "#\n"@
        } else {
            Seq::empty()
        }),
{
    assert(header(placeholder) =~= "# srpc.toml — client configuration for rs_srpc\n"@ + "#\n"@
        + "# WARNING: this file contains secrets (token, server_secret).\n"@
        + "# Save it as srpc.toml and restrict its permissions (chmod 600).\n"@ + "#\n"@ + (
    if placeholder {
        "# NOTE: server_host is a placeholder — fill in the server's public address.\n"@ + "#\n"@
    } else {
        Seq::empty()
    }));
}

fn write_header(placeholder: bool) -> (out: String)
    ensures
        out@ == header(placeholder),
        out@ == "# srpc.toml — client configuration for rs_srpc\n"@ + "#\n"@
            + "# WARNING: this file contains secrets (token, server_secret).\n"@
            + "# Save it as srpc.toml and restrict its permissions (chmod 600).\n"@ + "#\n"@ + (
        if placeholder {
            "# NOTE: server_host is a placeholder — fill in the server's public address.\n"@
                + "#\n"@
        } else {
            Seq::empty()
        }),
{
    let mut out = "# srpc.toml — client configuration for rs_srpc\n".to_owned();
    out.append("#\n");
    out.append("# WARNING: this file contains secrets (token, server_secret).\n");
    out.append("# Save it as srpc.toml and restrict its permissions (chmod 600).\n");
    out.append("#\n");
    if placeholder {
        out.append("# NOTE: server_host is a placeholder — fill in the server's public address.\n");
        out.append("#\n");
    }
    out
}

/// One line that sets `key` to a string, whatever the string holds.
pub open spec fn setting(key: Seq<char>, value: Seq<char>) -> Seq<char> {
    key + " = \""@ + basic_string::escaped(value) + "\"\n"@
}

/// What a setting is written as reads back as its value: behind the key and the
/// opening quote stands a string that says `value` and ends where the line ends,
/// whatever `value` holds and whatever follows.
pub proof fn settings_read_back(key: Seq<char>, value: Seq<char>, rest: Seq<char>)
    ensures
        text::has_prefix(setting(key, value) + rest, key + " = \""@),
        basic_string::read_string((setting(key, value) + rest).skip(key.len() as int + 4)) == Some(
            (value, "\n"@ + rest),
        ),
{
    reveal_strlit(" = \"");
    reveal_strlit("\"\n");
    reveal_strlit("\"");
    reveal_strlit("\n");
    let line = setting(key, value) + rest;
    assert(line.take(key.len() as int + 4) =~= key + " = \""@);
    assert(line.skip(key.len() as int + 4) =~= basic_string::escaped(value) + "\""@ + ("\n"@ + rest));
    basic_string::strings_read_back(value, "\n"@ + rest);
}

fn write_setting(out: &mut String, key: &str, value: &str)
    ensures
        final(out)@ == old(out)@ + setting(key@, value@),
{
    let ghost before = out@;
    out.append(key);
    out.append(" = \"");
    append_escaped(out, value);
    out.append("\"\n");
    assert(out@ =~= before + setting(key@, value@));
}

/// One line that sets the port.
pub open spec fn port_setting(port: u16) -> Seq<char> {
    "port = "@ + text::decimal(port as nat) + "\n"@
}

fn write_port(out: &mut String, port: u16)
    ensures
        final(out)@ == old(out)@ + port_setting(port),
{
    let ghost before = out@;
    out.append("port = ");
    out.append(number(port as u64).as_str());
    out.append("\n");
    assert(out@ =~= before + port_setting(port));
}

/// The `[client]` section.
pub open spec fn client_section(
    host: Seq<char>,
    kinds: Seq<TransportKind>,
    noise_pubkey: Seq<char>,
    cert_fingerprint: Seq<char>,
) -> Seq<char> {
    "[client]\n"@ + setting("server_host"@, host) + ("transport_priority = ["@ + text::joined(
        quoted_kinds(kinds),
        ", "@,
    ) + "]\n"@) + setting("server_noise_pubkey"@, noise_pubkey) + setting(
        "server_cert_fingerprint"@,
        cert_fingerprint,
    ) + "\n"@
}

fn write_priority(out: &mut String, kinds: &Vec<TransportKind>)
    ensures
        final(out)@ == old(out)@ + ("transport_priority = ["@ + text::joined(
            quoted_kinds(kinds@),
            ", "@,
        ) + "]\n"@),
{
    let ghost before = out@;
    let mut names: Vec<String> = Vec::new();
    let mut i: usize = 0;
    while i < kinds.len()
        invariant
            i <= kinds@.len(),
            names@.len() == i,
            forall|j: int| 0 <= j < i ==> #[trigger] names@[j]@ == "\""@ + kinds@[j].name() + "\""@,
        decreases kinds@.len() - i,
    {
        let mut name = "\"".to_owned();
        name.append(kinds[i].as_str());
        name.append("\"");
        names.push(name);
        i += 1;
    }
    assert(text::texts(names@) =~= quoted_kinds(kinds@));
    out.append("transport_priority = [");
    out.append(join(&names, ", ").as_str());
    out.append("]\n");
    assert(out@ =~= before + ("transport_priority = ["@ + text::joined(
        quoted_kinds(kinds@),
        ", "@,
    ) + "]\n"@));
}

fn write_client_section(
    host: &str,
    kinds: &Vec<TransportKind>,
    noise_pubkey: &str,
    cert_fingerprint: &str,
) -> (out: String)
    ensures
        out@ == client_section(host@, kinds@, noise_pubkey@, cert_fingerprint@),
{
    let mut out = "[client]\n".to_owned();
    write_setting(&mut out, "server_host", host);
    write_priority(&mut out, kinds);
    write_setting(&mut out, "server_noise_pubkey", noise_pubkey);
    write_setting(&mut out, "server_cert_fingerprint", cert_fingerprint);
    out.append("\n");
    out
}

/// The block for one transport that is enabled.
pub open spec fn transport_block(cfg: ServerConfig, kind: TransportKind) -> Seq<char>
    recommends
        cfg.transports.on(kind),
{
    match kind {
        TransportKind::Quic => "[client.transports.quic]\n"@ + port_setting(
            cfg.transports.quic->0.bind.port,
        ) + "\n"@,
        TransportKind::Wss => "[client.transports.wss]\n"@ + port_setting(
            cfg.transports.wss->0.bind.port,
        ) + setting("path"@, cfg.transports.wss->0.path@) + "\n"@,
        TransportKind::Tcp => "[client.transports.tcp]\n"@ + port_setting(
            cfg.transports.tcp->0.bind.port,
        ) + "\n"@,
    }
}

/// The blocks for `kinds`, one after the other.
pub open spec fn transport_blocks(cfg: ServerConfig, kinds: Seq<TransportKind>) -> Seq<char>
    decreases kinds.len(),
{
    if kinds.len() == 0 {
        Seq::empty()
    } else {
        transport_blocks(cfg, kinds.drop_last()) + transport_block(cfg, kinds.last())
    }
}

fn write_transport_block(cfg: &ServerConfig, kind: TransportKind) -> (out: String)
    requires
        cfg.transports.on(kind),
    ensures
        out@ == transport_block(*cfg, kind),
{
    match kind {
        TransportKind::Quic => {
            let mut out = "[client.transports.quic]\n".to_owned();
            if let Some(quic) = &cfg.transports.quic {
                write_port(&mut out, quic.bind.port);
            }
            out.append("\n");
            out
        },
        TransportKind::Wss => {
            let mut out = "[client.transports.wss]\n".to_owned();
            if let Some(wss) = &cfg.transports.wss {
                write_port(&mut out, wss.bind.port);
                write_setting(&mut out, "path", wss.path.as_str());
            }
            out.append("\n");
            out
        },
        TransportKind::Tcp => {
            let mut out = "[client.transports.tcp]\n".to_owned();
            if let Some(tcp) = &cfg.transports.tcp {
                write_port(&mut out, tcp.bind.port);
            }
            out.append("\n");
            out
        },
    }
}

fn write_transport_blocks(cfg: &ServerConfig, kinds: &Vec<TransportKind>) -> (out: String)
    requires
        forall|i: int| 0 <= i < kinds@.len() ==> cfg.transports.on(#[trigger] kinds@[i]),
    ensures
        out@ == transport_blocks(*cfg, kinds@),
{
    let mut out = String::new();
    let mut i: usize = 0;
    assert(kinds@.take(0) =~= Seq::empty());
    while i < kinds.len()
        invariant
            i <= kinds@.len(),
            out@ == transport_blocks(*cfg, kinds@.take(i as int)),
            forall|j: int| 0 <= j < kinds@.len() ==> cfg.transports.on(#[trigger] kinds@[j]),
        decreases kinds@.len() - i,
    {
        out.append(write_transport_block(cfg, kinds[i]).as_str());
        assert(kinds@.take(i + 1).drop_last() =~= kinds@.take(i as int));
        i += 1;
    }
    assert(kinds@.take(i as int) =~= kinds@);
    out
}

/// The `[security]` section.
pub open spec fn security_section(cfg: ServerConfig, user: User) -> Seq<char> {
    "[security]\n"@ + setting("server_secret"@, cfg.security.server_secret@) + setting(
        "username"@,
        user.name@,
    ) + setting("token"@, user.token@) + "\n"@
}

fn write_security_section(cfg: &ServerConfig, user: &User) -> (out: String)
    ensures
        out@ == security_section(*cfg, *user),
{
    let mut out = "[security]\n".to_owned();
    write_setting(&mut out, "server_secret", cfg.security.server_secret.as_str());
    write_setting(&mut out, "username", user.name.as_str());
    write_setting(&mut out, "token", user.token.as_str());
    out.append("\n");
    out
}

/// The example `[[proxies]]` block.
pub open spec fn example_proxy() -> Seq<char> {
    "# Edit the proxy entries below to match your services.\n"@
        + "# Each [[proxies]] block forwards one local port to the server.\n"@ + "[[proxies]]\n"@
        + "name = \"ssh\"\n"@ + "type = \"tcp\"\n"@ + "local_addr = \"127.0.0.1:22\"\n"@
        + "remote_port = 20022\n"@
}

fn write_example_proxy() -> (out: String)
    ensures
        out@ == example_proxy(),
{
    let mut out = "# Edit the proxy entries below to match your services.\n".to_owned();
    out.append("# Each [[proxies]] block forwards one local port to the server.\n");
    out.append("[[proxies]]\n");
    out.append("name = \"ssh\"\n");
    out.append("type = \"tcp\"\n");
    out.append("local_addr = \"127.0.0.1:22\"\n");
    out.append("remote_port = 20022\n");
    out
}

/// The whole `srpc.toml` for a user of a server with this Noise public key and this
/// certificate fingerprint.
pub open spec fn srpc_toml_with(
    cfg: ServerConfig,
    noise_pubkey: Seq<char>,
    cert_fingerprint: Seq<char>,
    user: User,
    host_override: Option<&str>,
) -> Seq<char> {
    header(host_override is None && cfg.public_host is None) + client_section(
        host_of(cfg, host_override),
        enabled_kinds(cfg),
        noise_pubkey,
        cert_fingerprint,
    ) + transport_blocks(cfg, enabled_kinds(cfg)) + security_section(cfg, user) + example_proxy()
}

/// The whole `srpc.toml` for a user.
pub open spec fn srpc_toml(
    cfg: ServerConfig,
    id: IdentityView,
    user: User,
    host_override: Option<&str>,
) -> Seq<char> {
    srpc_toml_with(
        cfg,
        identity::base64_text(id.noise.1),
        identity::fingerprint(identity::pem_der(id.tls.0)->0),
        user,
        host_override,
    )
}

/// Whether `out` is ready to use as the `srpc.toml` for a user: it reads as the
/// server's identity and the user's credentials, and the client accepts the
/// configuration that these settings make, provided that the server's own is
/// accepted, its host is not blank and its Noise public key not empty.
pub open spec fn ready_to_use(
    out: Seq<char>,
    cfg: ServerConfig,
    id: IdentityView,
    user: User,
    host_override: Option<&str>,
) -> bool {
    let noise_pubkey = identity::base64_text(id.noise.1);
    let cert_fingerprint = identity::fingerprint(identity::pem_der(id.tls.0)->0);
    &&& document::read(out, Seq::empty()) == Some(
        readback::printed_settings(cfg, noise_pubkey, cert_fingerprint, user, host_override),
    )
    &&& config::objection(cfg) is None && text::trimmed(host_of(cfg, host_override)).len() > 0
        && id.noise.1.len() > 0 ==> forall|c: ClientConfig| #[trigger]
        readback::has_settings(c, cfg, noise_pubkey, cert_fingerprint, user, host_override)
            ==> srpc::config::objection(c) is None
}

/// Writes the whole `srpc.toml` for a user of a server with this Noise public key
/// and this certificate fingerprint.
pub fn write_srpc_toml(
    cfg: &ServerConfig,
    noise_pubkey: &str,
    cert_fingerprint: &str,
    user: &User,
    host_override: Option<&str>,
) -> (out: String)
    ensures
        out@ == srpc_toml_with(*cfg, noise_pubkey@, cert_fingerprint@, *user, host_override),
        text::has_prefix(out@, header(host_override is None && cfg.public_host is None)),
        document::read(out@, Seq::empty()) matches Some(e) && document::set_to(
            e,
            "[security]"@,
            "username"@,
            document::Value::Text(user.name@),
        ) && document::set_to(e, "[security]"@, "token"@, document::Value::Text(user.token@))
            && document::set_to(
            e,
            "[client]"@,
            "server_noise_pubkey"@,
            document::Value::Text(noise_pubkey@),
        ) && document::set_to(
            e,
            "[client]"@,
            "server_cert_fingerprint"@,
            document::Value::Text(cert_fingerprint@),
        ),
{
    proof {
        readback::printed_client_configs_read_back(
            *cfg,
            noise_pubkey@,
            cert_fingerprint@,
            *user,
            host_override,
        );
        readback::printed_client_configs_name_server_and_user(
            *cfg,
            noise_pubkey@,
            cert_fingerprint@,
            *user,
            host_override,
        );
    }
    let server_host = resolve_host(cfg, host_override);
    let host_placeholder = host_override.is_none() && cfg.public_host.is_none();
    // Collect enabled transports in priority order: quic, wss, tcp.
    let kinds = priority(cfg);
    proof {
        listed_transports_are_the_enabled_ones(*cfg);
    }
    let mut out = write_header(host_placeholder);
    out.append(
        write_client_section(server_host, &kinds, noise_pubkey, cert_fingerprint).as_str(),
    );
    // One block per enabled transport.
    out.append(write_transport_blocks(cfg, &kinds).as_str());
    out.append(write_security_section(cfg, user).as_str());
    out.append(write_example_proxy().as_str());
    assert(out@.take(header(host_placeholder).len() as int) =~= header(host_placeholder));
    out
}

/// Renders a full `srpc.toml` for a user.
///
/// Fails if the user is not configured, naming those who are; else if the stored
/// certificate has no fingerprint.
pub fn render_srpc_toml(
    cfg: &ServerConfig,
    id: &ServerIdentity,
    user_name: &str,
    host_override: Option<&str>,
) -> (r: Result<String, RenderError>)
    requires
        identity::encodable(id@.noise.1.len()),
    ensures
        r is Ok <==> user_named(cfg.users@, user_name@) is Some && identity::pem_der(
            id@.tls.0,
        ) is Some,
        r matches Ok(out) ==> out@ == srpc_toml(
            *cfg,
            id@,
            user_named(cfg.users@, user_name@)->0,
            host_override,
        ),
        r matches Ok(out) ==> ready_to_use(
            out@,
            *cfg,
            id@,
            user_named(cfg.users@, user_name@)->0,
            host_override,
        ),
        (r matches Err(e) && e is UnknownUser) <==> user_named(cfg.users@, user_name@) is None,
        r matches Err(RenderError::UnknownUser(text)) ==> text@ == unknown_user_text(
            cfg.users@,
            user_name@,
        ),
        r is Ok <==> identity::pem_der(id@.tls.0) is Some && exists|i: int|
            0 <= i < cfg.users@.len() && (#[trigger] cfg.users@[i]).name@ == user_name@,
        (r matches Err(e) && e is UnknownUser) <==> forall|i: int|
            0 <= i < cfg.users@.len() ==> (#[trigger] cfg.users@[i]).name@ != user_name@,
        r matches Ok(out) ==> exists|i: int| #![trigger cfg.users@[i]]
            {
                let e = document::read(out@, Seq::empty())->0;
                &&& document::read(out@, Seq::empty()) is Some
                &&& 0 <= i < cfg.users@.len()
                &&& cfg.users@[i].name@ == user_name@
                &&& forall|j: int| 0 <= j < i ==> (#[trigger] cfg.users@[j]).name@ != user_name@
                &&& document::set_to(
                    e,
                    "[security]"@,
                    "username"@,
                    document::Value::Text(user_name@),
                )
                &&& document::set_to(
                    e,
                    "[security]"@,
                    "token"@,
                    document::Value::Text(cfg.users@[i].token@),
                )
            },
        r matches Ok(out) ==> {
            let e = document::read(out@, Seq::empty())->0;
            let host = match host_override {
                Some(h) => h@,
                None => match cfg.public_host {
                    Some(h) => h@,
                    None => "<server-public-host>"@,
                },
            };
            &&& document::set_to(
                e,
                "[security]"@,
                "server_secret"@,
                document::Value::Text(cfg.security.server_secret@),
            )
            &&& document::set_to(e, "[client]"@, "server_host"@, document::Value::Text(host))
            &&& document::set_to(
                e,
                "[client]"@,
                "server_noise_pubkey"@,
                document::Value::Text(identity::base64_text(id@.noise.1)),
            )
            &&& document::set_to(
                e,
                "[client]"@,
                "server_cert_fingerprint"@,
                document::Value::Text(identity::fingerprint(identity::pem_der(id@.tls.0)->0)),
            )
        },
{
    proof {
        users_are_found_by_their_whole_name(cfg.users@, user_name@);
    }
    // Find user entry.
    let user = match find_user(&cfg.users, user_name) {
        Some(user) => user,
        None => {
            let quoted_name = quoted(user_name);
            return Err(
                RenderError::UnknownUser(not_found_message(&cfg.users, quoted_name.as_str())),
            );
        },
    };
    let noise_pubkey = id.noise_public_key_b64();
    let cert_fingerprint = match id.cert_fingerprint() {
        Ok(cert_fingerprint) => cert_fingerprint,
        Err(e) => return Err(RenderError::Certificate(e)),
    };
    let out = write_srpc_toml(
        cfg,
        noise_pubkey.as_str(),
        cert_fingerprint.as_str(),
        user,
        host_override,
    );
    proof {
        reveal_strlit("sha256:");
        assert(cert_fingerprint@[0] == cert_fingerprint@.take(7)[0]);
        text::lemma_not_blank(cert_fingerprint@);
        lemma_ready_to_use(
            *cfg,
            noise_pubkey@,
            cert_fingerprint@,
            *user,
            host_override,
        );
        readback::printed_client_configs_name_server_and_user(
            *cfg,
            noise_pubkey@,
            cert_fingerprint@,
            *user,
            host_override,
        );
    }
    Ok(out)
}

proof fn lemma_ready_to_use(
    cfg: ServerConfig,
    noise_pubkey: Seq<char>,
    cert_fingerprint: Seq<char>,
    user: User,
    host_override: Option<&str>,
)
    requires
        text::trimmed(cert_fingerprint).len() > 0,
    ensures
        document::read(
            srpc_toml_with(cfg, noise_pubkey, cert_fingerprint, user, host_override),
            Seq::empty(),
        ) == Some(
            readback::printed_settings(cfg, noise_pubkey, cert_fingerprint, user, host_override),
        ),
        config::objection(cfg) is None && text::trimmed(host_of(cfg, host_override)).len() > 0
            && text::trimmed(noise_pubkey).len() > 0 ==> forall|c: ClientConfig| #[trigger]
            readback::has_settings(c, cfg, noise_pubkey, cert_fingerprint, user, host_override)
                ==> srpc::config::objection(c) is None,
{
    readback::printed_client_configs_read_back(
        cfg,
        noise_pubkey,
        cert_fingerprint,
        user,
        host_override,
    );
    if config::objection(cfg) is None && text::trimmed(host_of(cfg, host_override)).len() > 0
        && text::trimmed(noise_pubkey).len() > 0 {
        assert forall|c: ClientConfig| #[trigger]
            readback::has_settings(
                c,
                cfg,
                noise_pubkey,
                cert_fingerprint,
                user,
                host_override,
            ) implies srpc::config::objection(c) is None by {
            readback::printed_client_configs_are_accepted(
                c,
                cfg,
                noise_pubkey,
                cert_fingerprint,
                user,
                host_override,
            );
        }
    }
}

/// The place of a transport in the order in which clients try them.
pub open spec fn rank(kind: TransportKind) -> int {
    match kind {
        TransportKind::Quic => 0,
        TransportKind::Wss => 1,
        TransportKind::Tcp => 2,
    }
}

/// The transports that a client is told to try, each of which gets a block, are
/// exactly those that the server has enabled, each once, quic before wss before
/// tcp. Of a server whose configuration is accepted there is at least one.
pub proof fn listed_transports_are_the_enabled_ones(cfg: ServerConfig)
    ensures
        forall|kind: TransportKind|
            enabled_kinds(cfg).contains(kind) <==> #[trigger] cfg.transports.on(kind),
        forall|i: int| 0 <= i < enabled_kinds(cfg).len() ==> cfg.transports.on(
            #[trigger] enabled_kinds(cfg)[i],
        ),
        forall|i: int, j: int|
            0 <= i < j < enabled_kinds(cfg).len() ==> rank(#[trigger] enabled_kinds(cfg)[i]) < rank(
                #[trigger] enabled_kinds(cfg)[j],
            ),
        config::objection(cfg) is None ==> enabled_kinds(cfg).len() > 0,
{
    let kinds = enabled_kinds(cfg);
    let q = if cfg.transports.on(TransportKind::Quic) {
        1int
    } else {
        0
    };
    let w = if cfg.transports.on(TransportKind::Wss) {
        1int
    } else {
        0
    };
    assert(cfg.transports.on(TransportKind::Quic) ==> kinds[0] == TransportKind::Quic);
    assert(cfg.transports.on(TransportKind::Wss) ==> kinds[q] == TransportKind::Wss);
    assert(cfg.transports.on(TransportKind::Tcp) ==> kinds[q + w] == TransportKind::Tcp);
    assert forall|kind: TransportKind| kinds.contains(kind) <==> #[trigger] cfg.transports.on(
        kind,
    ) by {
        match kind {
            TransportKind::Quic => {},
            TransportKind::Wss => {},
            TransportKind::Tcp => {},
        }
    }
}

// ---------------------------------------------------------------------------
// Identity card output (no user)
// ---------------------------------------------------------------------------

/// The line that says what one transport listens on, if it is enabled.
pub open spec fn listener_line(cfg: ServerConfig, kind: TransportKind) -> Seq<char> {
    if !cfg.transports.on(kind) {
        Seq::empty()
    } else {
        match kind {
            TransportKind::Quic => "    quic   bind="@ + cfg.transports.quic->0.bind.text() + "\n"@,
            TransportKind::Wss => "    wss    bind="@ + cfg.transports.wss->0.bind.text()
                + "  path="@ + cfg.transports.wss->0.path@ + "\n"@,
            TransportKind::Tcp => "    tcp    bind="@ + cfg.transports.tcp->0.bind.text() + "\n"@,
        }
    }
}

/// The line of a transport that is enabled gives the address that its own block
/// binds, and that of WSS the path too; there is no line for any other.
pub proof fn enabled_transports_have_a_line(cfg: ServerConfig)
    ensures
        ({
            let t = cfg.transports;
            &&& listener_line(cfg, TransportKind::Quic) == if t.quic is Some && t.quic->0.enabled {
                "    quic   bind="@ + t.quic->0.bind.host@ + ":"@ + text::decimal(
                    t.quic->0.bind.port as nat,
                ) + "\n"@
            } else {
                Seq::empty()
            }
            &&& listener_line(cfg, TransportKind::Wss) == if t.wss is Some && t.wss->0.enabled {
                "    wss    bind="@ + t.wss->0.bind.host@ + ":"@ + text::decimal(
                    t.wss->0.bind.port as nat,
                ) + "  path="@ + t.wss->0.path@ + "\n"@
            } else {
                Seq::empty()
            }
            &&& listener_line(cfg, TransportKind::Tcp) == if t.tcp is Some && t.tcp->0.enabled {
                "    tcp    bind="@ + t.tcp->0.bind.host@ + ":"@ + text::decimal(
                    t.tcp->0.bind.port as nat,
                ) + "\n"@
            } else {
                Seq::empty()
            }
        }),
{
    let t = cfg.transports;
    assert(listener_line(cfg, TransportKind::Quic) =~= if t.quic is Some && t.quic->0.enabled {
        "    quic   bind="@ + t.quic->0.bind.host@ + ":"@ + text::decimal(
            t.quic->0.bind.port as nat,
        ) + "\n"@
    } else {
        Seq::empty()
    });
    assert(listener_line(cfg, TransportKind::Wss) =~= if t.wss is Some && t.wss->0.enabled {
        "    wss    bind="@ + t.wss->0.bind.host@ + ":"@ + text::decimal(
            t.wss->0.bind.port as nat,
        ) + "  path="@ + t.wss->0.path@ + "\n"@
    } else {
        Seq::empty()
    });
    assert(listener_line(cfg, TransportKind::Tcp) =~= if t.tcp is Some && t.tcp->0.enabled {
        "    tcp    bind="@ + t.tcp->0.bind.host@ + ":"@ + text::decimal(
            t.tcp->0.bind.port as nat,
        ) + "\n"@
    } else {
        Seq::empty()
    });
}

fn write_listener_line(cfg: &ServerConfig, kind: TransportKind) -> (out: String)
    ensures
        out@ == listener_line(*cfg, kind),
{
    if !cfg.transports.is_enabled(kind) {
        return String::new();
    }
    match kind {
        TransportKind::Quic => {
            let mut out = "    quic   bind=".to_owned();
            if let Some(quic) = &cfg.transports.quic {
                out.append(quic.bind.to_text().as_str());
            }
            out.append("\n");
            out
        },
        TransportKind::Wss => {
            let mut out = "    wss    bind=".to_owned();
            if let Some(wss) = &cfg.transports.wss {
                out.append(wss.bind.to_text().as_str());
                out.append("  path=");
                out.append(wss.path.as_str());
            }
            out.append("\n");
            out
        },
        TransportKind::Tcp => {
            let mut out = "    tcp    bind=".to_owned();
            if let Some(tcp) = &cfg.transports.tcp {
                out.append(tcp.bind.to_text().as_str());
            }
            out.append("\n");
            out
        },
    }
}

/// The identity card of a server with this Noise public key and this certificate
/// fingerprint.
pub open spec fn identity_card_with(
    cfg: ServerConfig,
    noise_pubkey: Seq<char>,
    cert_fingerprint: Seq<char>,
) -> Seq<char> {
    "=== rs_srpd server identity ===\n\n"@ + "  public_host          : "@ + (
    match cfg.public_host {
        Some(h) => h@,
        None => "(not configured)"@,
    }) + "\n  noise_public_key     : "@ + noise_pubkey + "\n  cert_fingerprint     : "@
        + cert_fingerprint
        + "\n\n  Enabled transports:\n"@ + listener_line(cfg, TransportKind::Quic) + listener_line(
        cfg,
        TransportKind::Wss,
    ) + listener_line(cfg, TransportKind::Tcp) + "\n  Configured users     : "@ + (
    if cfg.users@.len() == 0 {
        "(none)"@
    } else {
        text::joined(config::user_names(cfg.users@), ", "@)
    }) + "\n\nHint: re-run with `--user <name>` to generate a full srpc.toml.\n"@
}

/// The identity card.
pub open spec fn identity_card(cfg: ServerConfig, id: IdentityView) -> Seq<char> {
    identity_card_with(
        cfg,
        identity::base64_text(id.noise.1),
        identity::fingerprint(identity::pem_der(id.tls.0)->0),
    )
}

/// Writes the identity card of a server with this Noise public key and this
/// certificate fingerprint.
pub fn write_identity_card(
    cfg: &ServerConfig,
    noise_pubkey: &str,
    cert_fingerprint: &str,
) -> (out: String)
    ensures
        out@ == identity_card_with(*cfg, noise_pubkey@, cert_fingerprint@),
        out@ == "=== rs_srpd server identity ===\n\n"@ + "  public_host          : "@ + (
        match cfg.public_host {
            Some(h) => h@,
            None => "(not configured)"@,
        }) + "\n  noise_public_key     : "@ + noise_pubkey@ + "\n  cert_fingerprint     : "@
            + cert_fingerprint@ + "\n\n  Enabled transports:\n"@ + listener_line(
            *cfg,
            TransportKind::Quic,
        ) + listener_line(*cfg, TransportKind::Wss) + listener_line(*cfg, TransportKind::Tcp)
            + "\n  Configured users     : "@ + (if cfg.users@.len() == 0 {
            "(none)"@
        } else {
            text::joined(config::user_names(cfg.users@), ", "@)
        }) + "\n\nHint: re-run with `--user <name>` to generate a full srpc.toml.\n"@,
{
    let mut out = "=== rs_srpd server identity ===\n\n".to_owned();
    out.append("  public_host          : ");
    match &cfg.public_host {
        Some(h) => out.append(h.as_str()),
        None => out.append("(not configured)"),
    }
    out.append("\n  noise_public_key     : ");
    out.append(noise_pubkey);
    out.append("\n  cert_fingerprint     : ");
    out.append(cert_fingerprint);
    out.append("\n\n  Enabled transports:\n");
    out.append(write_listener_line(cfg, TransportKind::Quic).as_str());
    out.append(write_listener_line(cfg, TransportKind::Wss).as_str());
    out.append(write_listener_line(cfg, TransportKind::Tcp).as_str());
    out.append("\n  Configured users     : ");
    if cfg.users.len() == 0 {
        out.append("(none)");
    } else {
        out.append(list_names(&cfg.users).as_str());
    }
    out.append("\n\nHint: re-run with `--user <name>` to generate a full srpc.toml.\n");
    out
}

/// Renders a human-readable identity card. Fails if the stored certificate has no
/// fingerprint.
pub fn render_identity_card(cfg: &ServerConfig, id: &ServerIdentity) -> (r: Result<
    String,
    RenderError,
>)
    requires
        identity::encodable(id@.noise.1.len()),
    ensures
        r is Ok <==> identity::pem_der(id@.tls.0) is Some,
        r matches Ok(out) ==> out@ == identity_card(*cfg, id@),
        r matches Err(e) ==> e is Certificate,
{
    let cert_fingerprint = match id.cert_fingerprint() {
        Ok(cert_fingerprint) => cert_fingerprint,
        Err(e) => return Err(RenderError::Certificate(e)),
    };
    let noise_pubkey = id.noise_public_key_b64();
    Ok(write_identity_card(cfg, noise_pubkey.as_str(), cert_fingerprint.as_str()))
}

/// Runs `client-config` with an optional user and an optional host.
///
/// - With a user: gives a full `srpc.toml` ready to save.
/// - Without: gives a human-readable identity card.
pub fn run(
    cfg: &ServerConfig,
    id: &ServerIdentity,
    user_name: Option<&str>,
    host_override: Option<&str>,
) -> (r: Result<String, RenderError>)
    requires
        identity::encodable(id@.noise.1.len()),
    ensures
        r is Ok <==> identity::pem_der(id@.tls.0) is Some && (user_name matches Some(name)
            ==> user_named(cfg.users@, name@) is Some),
        r matches Ok(out) ==> out@ == match user_name {
            Some(name) => srpc_toml(
                *cfg,
                id@,
                user_named(cfg.users@, name@)->0,
                host_override,
            ),
            None => identity_card(*cfg, id@),
        },
        (r matches Err(e) && e is UnknownUser) <==> (user_name matches Some(name) && user_named(
            cfg.users@,
            name@,
        ) is None),
        r matches Err(RenderError::UnknownUser(text)) ==> text@ == unknown_user_text(
            cfg.users@,
            user_name->0@,
        ),
        (r matches Err(e) && e is UnknownUser) <==> (user_name matches Some(name) && forall|i: int|
            0 <= i < cfg.users@.len() ==> (#[trigger] cfg.users@[i]).name@ != name@),
        r is Ok && user_name is Some ==> exists|i: int| #![trigger cfg.users@[i]]
            {
                let e = document::read(r->Ok_0@, Seq::empty())->0;
                &&& 0 <= i < cfg.users@.len()
                &&& cfg.users@[i].name@ == user_name->0@
                &&& document::set_to(
                    e,
                    "[security]"@,
                    "username"@,
                    document::Value::Text(user_name->0@),
                )
                &&& document::set_to(
                    e,
                    "[security]"@,
                    "token"@,
                    document::Value::Text(cfg.users@[i].token@),
                )
            },
{
    match user_name {
        Some(name) => render_srpc_toml(cfg, id, name, host_override),
        None => render_identity_card(cfg, id),
    }
}

} // verus!
