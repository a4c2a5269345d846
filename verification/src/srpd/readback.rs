//! What a printed `srpc.toml` says: reading it back gives the settings it was
//! printed from, and they make a configuration that the client accepts.

use vstd::prelude::*;

use super::client_config::{
    client_section, enabled_kinds, example_proxy, header, host_of,
    listed_transports_are_the_enabled_ones, port_setting, quoted_kinds, security_section, setting,
    srpc_toml_with, transport_block, transport_blocks,
};
use super::config::{self, ServerConfig, User};
use crate::basic_string;
use crate::document::{
    self, all_upto, bare_key, following, lemma_all_upto, lemma_comment, lemma_empty_line, lemma_header,
    lemma_number_value, lemma_setting, lemma_text_value, lemma_texts_value, read, set_to,
    settings_add_up, unset, Entry, Value,
};
use crate::srpc;
use crate::srpc::config::ClientConfig;
use crate::text;
use crate::types::{ProxyKind, TransportKind};

verus! {

// ---------------------------------------------------------------------------
// The settings
// ---------------------------------------------------------------------------

/// A string setting.
pub open spec fn text_entry(section: Seq<char>, key: Seq<char>, value: Seq<char>) -> Entry {
    Entry { section, key, value: Value::Text(value) }
}

/// A number setting.
pub open spec fn number_entry(section: Seq<char>, key: Seq<char>, value: nat) -> Entry {
    Entry { section, key, value: Value::Number(value) }
}

/// The names of the transports.
pub open spec fn kind_names(kinds: Seq<TransportKind>) -> Seq<Seq<char>> {
    Seq::new(kinds.len(), |i: int| kinds[i].name())
}

/// The settings of the `[client]` section.
pub open spec fn client_entries(
    host: Seq<char>,
    kinds: Seq<TransportKind>,
    noise_pubkey: Seq<char>,
    cert_fingerprint: Seq<char>,
) -> Seq<Entry> {
    let s = "[client]"@;
    seq![
        text_entry(s, "server_host"@, host),
        Entry { section: s, key: "transport_priority"@, value: Value::Texts(kind_names(kinds)) },
        text_entry(s, "server_noise_pubkey"@, noise_pubkey),
        text_entry(s, "server_cert_fingerprint"@, cert_fingerprint),
    ]
}

/// The settings in the block for one transport.
pub open spec fn block_entries(cfg: ServerConfig, kind: TransportKind) -> Seq<Entry> {
    match kind {
        TransportKind::Quic => seq![
            number_entry(
                "[client.transports.quic]"@,
                "port"@,
                cfg.transports.quic->0.bind.port as nat,
            ),
        ],
        TransportKind::Wss => seq![
            number_entry(
                "[client.transports.wss]"@,
                "port"@,
                cfg.transports.wss->0.bind.port as nat,
            ),
            text_entry("[client.transports.wss]"@, "path"@, cfg.transports.wss->0.path@),
        ],
        TransportKind::Tcp => seq![
            number_entry(
                "[client.transports.tcp]"@,
                "port"@,
                cfg.transports.tcp->0.bind.port as nat,
            ),
        ],
    }
}

/// The settings in the blocks for `kinds`.
pub open spec fn blocks_entries(cfg: ServerConfig, kinds: Seq<TransportKind>) -> Seq<Entry>
    decreases kinds.len(),
{
    if kinds.len() == 0 {
        Seq::empty()
    } else {
        blocks_entries(cfg, kinds.drop_last()) + block_entries(cfg, kinds.last())
    }
}

/// The settings of the `[security]` section.
pub open spec fn security_entries(cfg: ServerConfig, user: User) -> Seq<Entry> {
    let s = "[security]"@;
    seq![
        text_entry(s, "server_secret"@, cfg.security.server_secret@),
        text_entry(s, "username"@, user.name@),
        text_entry(s, "token"@, user.token@),
    ]
}

/// The settings of the example proxy.
pub open spec fn proxy_entries() -> Seq<Entry> {
    let s = "[[proxies]]"@;
    seq![
        text_entry(s, "name"@, "ssh"@),
        text_entry(s, "type"@, "tcp"@),
        text_entry(s, "local_addr"@, "127.0.0.1:22"@),
        number_entry(s, "remote_port"@, 20022),
    ]
}

/// All settings of the `srpc.toml` for a user.
pub open spec fn printed_settings(
    cfg: ServerConfig,
    noise_pubkey: Seq<char>,
    cert_fingerprint: Seq<char>,
    user: User,
    host_override: Option<&str>,
) -> Seq<Entry> {
    client_entries(
        host_of(cfg, host_override),
        enabled_kinds(cfg),
        noise_pubkey,
        cert_fingerprint,
    ) + (blocks_entries(cfg, enabled_kinds(cfg)) + (security_entries(cfg, user) + proxy_entries()))
}

// ---------------------------------------------------------------------------
// Lines
// ---------------------------------------------------------------------------

/// Whether `s` reads as `r` in whatever section it stands.
spec fn says(s: Seq<char>, r: Option<Seq<Entry>>) -> bool {
    forall|section: Seq<char>| #[trigger] read(s, section) == r
}

spec fn plain(c: char) -> bool {
    c != '"' && c != '\\' && !basic_string::is_control(c)
}

proof fn lemma_plain(s: Seq<char>)
    requires
        all_upto(s, s.len(), |c: char| plain(c)),
    ensures
        basic_string::escaped(s) == s,
{
    lemma_all_upto(s, s.len(), |c: char| plain(c));
    assert forall|i: int| 0 <= i < s.len() implies (#[trigger] s[i]) != '"' && s[i] != '\\'
        && !basic_string::is_control(s[i]) by {
        assert((|c: char| plain(c))(s[i]));
    }
    basic_string::plain_text_is_written_as_it_is(s);
}

proof fn lemma_following(a: Seq<Entry>, b: Seq<Entry>, r: Option<Seq<Entry>>)
    ensures
        following(a, following(b, r)) == following(a + b, r),
{
    if let Some(others) = r {
        assert(a + (b + others) =~= a + b + others);
    }
}

proof fn lemma_text_line(key: Seq<char>, value: Seq<char>, rest: Seq<char>, section: Seq<char>)
    requires
        bare_key(key),
    ensures
        read(setting(key, value) + rest, section) == following(
            seq![text_entry(section, key, value)],
            read(rest, section),
        ),
{
    reveal_strlit(" = \"");
    reveal_strlit("\"\n");
    let written = seq!['"'] + basic_string::escaped(value) + seq!['"'];
    lemma_text_value(value, seq!['\n'] + rest);
    assert(written + seq!['\n'] + rest =~= seq!['"'] + basic_string::escaped(value) + seq!['"'] + (
    seq!['\n'] + rest));
    lemma_setting(key, written, Value::Text(value), rest, section);
    assert(setting(key, value) + rest =~= key + seq![' ', '=', ' '] + written + seq!['\n'] + rest);
}

proof fn lemma_number_line(key: Seq<char>, n: nat, rest: Seq<char>, section: Seq<char>)
    requires
        bare_key(key),
    ensures
        read(key + seq![' ', '=', ' '] + text::decimal(n) + seq!['\n'] + rest, section)
            == following(seq![number_entry(section, key, n)], read(rest, section)),
{
    lemma_number_value(n, seq!['\n'] + rest);
    assert(text::decimal(n) + seq!['\n'] + rest =~= text::decimal(n) + (seq!['\n'] + rest));
    lemma_setting(key, text::decimal(n), Value::Number(n), rest, section);
}

proof fn lemma_port_line(port: u16, rest: Seq<char>, section: Seq<char>)
    ensures
        read(port_setting(port) + rest, section) == following(
            seq![number_entry(section, "port"@, port as nat)],
            read(rest, section),
        ),
{
    reveal_strlit("port = ");
    reveal_strlit("port");
    reveal_strlit("\n");
    reveal_with_fuel(all_upto, 5);
    lemma_number_line("port"@, port as nat, rest, section);
    assert(port_setting(port) + rest =~= "port"@ + seq![' ', '=', ' '] + text::decimal(port as nat)
        + seq!['\n'] + rest);
}

proof fn lemma_kinds_line(kinds: Seq<TransportKind>, rest: Seq<char>, section: Seq<char>)
    ensures
        read(
            ("transport_priority = ["@ + text::joined(quoted_kinds(kinds), ", "@) + "]\n"@) + rest,
            section,
        ) == following(
            seq![
                Entry {
                    section,
                    key: "transport_priority"@,
                    value: Value::Texts(kind_names(kinds)),
                },
            ],
            read(rest, section),
        ),
{
    reveal_strlit("transport_priority = [");
    reveal_strlit("transport_priority");
    reveal_strlit("]\n");
    reveal_strlit(", ");
    reveal_strlit("\"");
    reveal_strlit("tcp");
    reveal_strlit("quic");
    reveal_strlit("wss");
    let key = "transport_priority"@;
    assert(bare_key(key)) by {
        reveal_with_fuel(all_upto, 19);
    }
    let names = kind_names(kinds);
    assert forall|i: int| 0 <= i < names.len() implies basic_string::escaped(#[trigger] names[i])
        == names[i] by {
        reveal_with_fuel(all_upto, 5);
        lemma_plain(names[i]);
    }
    let sep = seq![',', ' '];
    assert(", "@ =~= sep);
    assert("\""@ =~= seq!['"']);
    assert(quoted_kinds(kinds) =~~= document::between_quotes(names));
    let list = text::joined(document::between_quotes(names), sep);
    let written = seq!['['] + list + seq![']'];
    lemma_texts_value(names, seq!['\n'] + rest);
    assert(written + seq!['\n'] + rest =~= seq!['['] + list + seq![']'] + (seq!['\n'] + rest));
    lemma_setting(key, written, Value::Texts(names), rest, section);
    assert(("transport_priority = ["@ + list + "]\n"@) + rest =~= key + seq![' ', '=', ' ']
        + written + seq!['\n'] + rest);
}

// ---------------------------------------------------------------------------
// Sections
// ---------------------------------------------------------------------------

proof fn lemma_title_comment()
    ensures
        document::comment("# srpc.toml — client configuration for rs_srpc\n"@),
{
    reveal_strlit("# srpc.toml — client configuration for rs_srpc\n");
    reveal_with_fuel(all_upto, 48);
}

proof fn lemma_bare_comment()
    ensures
        document::comment("#\n"@),
{
    reveal_strlit("#\n");
    reveal_with_fuel(all_upto, 3);
}

proof fn lemma_warning_comment()
    ensures
        document::comment("# WARNING: this file contains secrets (token, server_secret).\n"@),
{
    reveal_strlit("# WARNING: this file contains secrets (token, server_secret).\n");
    reveal_with_fuel(all_upto, 63);
}

proof fn lemma_save_comment()
    ensures
        document::comment("# Save it as srpc.toml and restrict its permissions (chmod 600).\n"@),
{
    reveal_strlit("# Save it as srpc.toml and restrict its permissions (chmod 600).\n");
    reveal_with_fuel(all_upto, 66);
}

proof fn lemma_note_comment()
    ensures
        document::comment("# NOTE: server_host is a placeholder — fill in the server's public address.\n"@),
{
    reveal_strlit("# NOTE: server_host is a placeholder — fill in the server's public address.\n");
    reveal_with_fuel(all_upto, 77);
}

proof fn lemma_header_part(placeholder: bool, rest: Seq<char>, r: Option<Seq<Entry>>)
    requires
        says(rest, r),
    ensures
        says(header(placeholder) + rest, r),
{
    let title = "# srpc.toml — client configuration for rs_srpc\n"@;
    let bare = "#\n"@;
    let warning = "# WARNING: this file contains secrets (token, server_secret).\n"@;
    let save = "# Save it as srpc.toml and restrict its permissions (chmod 600).\n"@;
    let note = "# NOTE: server_host is a placeholder — fill in the server's public address.\n"@;
    lemma_title_comment();
    lemma_bare_comment();
    lemma_warning_comment();
    lemma_save_comment();
    lemma_note_comment();
    let from_note = if placeholder {
        note + (bare + rest)
    } else {
        rest
    };
    let all = title + (bare + (warning + (save + (bare + from_note))));
    assert(header(placeholder) + rest =~= all);
    assert forall|section: Seq<char>| #[trigger]
        read(header(placeholder) + rest, section) == r by {
        assert(read(rest, section) == r);
        lemma_comment(title, bare + (warning + (save + (bare + from_note))), section);
        lemma_comment(bare, warning + (save + (bare + from_note)), section);
        lemma_comment(warning, save + (bare + from_note), section);
        lemma_comment(save, bare + from_note, section);
        lemma_comment(bare, from_note, section);
        if placeholder {
            lemma_comment(note, bare + rest, section);
            lemma_comment(bare, rest, section);
        }
    }
}

proof fn lemma_client_literals()
    ensures
        document::header("[client]"@),
        "[client]\n"@ == "[client]"@ + seq!['\n'],
        "\n"@ == seq!['\n'],
        bare_key("server_host"@),
        bare_key("server_noise_pubkey"@),
        bare_key("server_cert_fingerprint"@),
{
    let h = "[client]"@;
    assert(document::header(h) && "[client]\n"@ =~= h + seq!['\n']) by {
        reveal_strlit("[client]");
        reveal_strlit("[client]\n");
        reveal_with_fuel(all_upto, 9);
    }
    assert("\n"@ =~= seq!['\n']) by {
        reveal_strlit("\n");
    }
    assert(bare_key("server_host"@)) by {
        reveal_strlit("server_host");
        reveal_with_fuel(all_upto, 12);
    }
    assert(bare_key("server_noise_pubkey"@)) by {
        reveal_strlit("server_noise_pubkey");
        reveal_with_fuel(all_upto, 20);
    }
    assert(bare_key("server_cert_fingerprint"@)) by {
        reveal_strlit("server_cert_fingerprint");
        reveal_with_fuel(all_upto, 24);
    }
}

proof fn lemma_client_part(
    host: Seq<char>,
    kinds: Seq<TransportKind>,
    noise_pubkey: Seq<char>,
    cert_fingerprint: Seq<char>,
    rest: Seq<char>,
    r: Option<Seq<Entry>>,
)
    requires
        says(rest, r),
    ensures
        says(
            client_section(host, kinds, noise_pubkey, cert_fingerprint) + rest,
            following(client_entries(host, kinds, noise_pubkey, cert_fingerprint), r),
        ),
{
    let h = "[client]"@;
    lemma_client_literals();
    let l1 = setting("server_host"@, host);
    let l2 = "transport_priority = ["@ + text::joined(quoted_kinds(kinds), ", "@) + "]\n"@;
    let l3 = setting("server_noise_pubkey"@, noise_pubkey);
    let l4 = setting("server_cert_fingerprint"@, cert_fingerprint);
    let r5 = "\n"@ + rest;
    let r4 = l4 + r5;
    let r3 = l3 + r4;
    let r2 = l2 + r3;
    let r1 = l1 + r2;
    let all = client_section(host, kinds, noise_pubkey, cert_fingerprint) + rest;
    assert(all =~= h + seq!['\n'] + r1);
    let entries = client_entries(host, kinds, noise_pubkey, cert_fingerprint);
    assert forall|section: Seq<char>| #[trigger] read(all, section) == following(entries, r) by {
        lemma_header(h, r1, section);
        lemma_text_line("server_host"@, host, r2, h);
        lemma_kinds_line(kinds, r3, h);
        lemma_text_line("server_noise_pubkey"@, noise_pubkey, r4, h);
        lemma_text_line("server_cert_fingerprint"@, cert_fingerprint, r5, h);
        lemma_empty_line(rest, h);
        assert(read(rest, h) == r);
        let e1 = seq![entries[0]];
        let e2 = seq![entries[1]];
        let e3 = seq![entries[2]];
        let e4 = seq![entries[3]];
        lemma_following(e3, e4, r);
        lemma_following(e2, e3 + e4, r);
        lemma_following(e1, e2 + (e3 + e4), r);
        assert(e1 + (e2 + (e3 + e4)) =~= entries);
    }
}

proof fn lemma_block_literals()
    ensures
        document::header("[client.transports.quic]"@),
        document::header("[client.transports.wss]"@),
        document::header("[client.transports.tcp]"@),
        "[client.transports.quic]\n"@ == "[client.transports.quic]"@ + seq!['\n'],
        "[client.transports.wss]\n"@ == "[client.transports.wss]"@ + seq!['\n'],
        "[client.transports.tcp]\n"@ == "[client.transports.tcp]"@ + seq!['\n'],
        "\n"@ == seq!['\n'],
        bare_key("path"@),
{
    assert(document::header("[client.transports.quic]"@) && "[client.transports.quic]\n"@
        =~= "[client.transports.quic]"@ + seq!['\n']) by {
        reveal_strlit("[client.transports.quic]");
        reveal_strlit("[client.transports.quic]\n");
        reveal_with_fuel(all_upto, 25);
    }
    assert(document::header("[client.transports.wss]"@) && "[client.transports.wss]\n"@
        =~= "[client.transports.wss]"@ + seq!['\n']) by {
        reveal_strlit("[client.transports.wss]");
        reveal_strlit("[client.transports.wss]\n");
        reveal_with_fuel(all_upto, 24);
    }
    assert(document::header("[client.transports.tcp]"@) && "[client.transports.tcp]\n"@
        =~= "[client.transports.tcp]"@ + seq!['\n']) by {
        reveal_strlit("[client.transports.tcp]");
        reveal_strlit("[client.transports.tcp]\n");
        reveal_with_fuel(all_upto, 24);
    }
    assert("\n"@ =~= seq!['\n']) by {
        reveal_strlit("\n");
    }
    assert(bare_key("path"@)) by {
        reveal_strlit("path");
        reveal_with_fuel(all_upto, 5);
    }
}

proof fn lemma_block_part(
    cfg: ServerConfig,
    kind: TransportKind,
    rest: Seq<char>,
    r: Option<Seq<Entry>>,
)
    requires
        says(rest, r),
    ensures
        says(transport_block(cfg, kind) + rest, following(block_entries(cfg, kind), r)),
{
    let h = match kind {
        TransportKind::Quic => "[client.transports.quic]"@,
        TransportKind::Wss => "[client.transports.wss]"@,
        TransportKind::Tcp => "[client.transports.tcp]"@,
    };
    lemma_block_literals();
    let port = match kind {
        TransportKind::Quic => cfg.transports.quic->0.bind.port,
        TransportKind::Wss => cfg.transports.wss->0.bind.port,
        TransportKind::Tcp => cfg.transports.tcp->0.bind.port,
    };
    let path = cfg.transports.wss->0.path@;
    let end = "\n"@ + rest;
    let after_port = if kind is Wss {
        setting("path"@, path) + end
    } else {
        end
    };
    let body = port_setting(port) + after_port;
    let all = transport_block(cfg, kind) + rest;
    assert(all =~= h + seq!['\n'] + body);
    let entries = block_entries(cfg, kind);
    assert forall|section: Seq<char>| #[trigger] read(all, section) == following(entries, r) by {
        lemma_header(h, body, section);
        lemma_port_line(port, after_port, h);
        lemma_empty_line(rest, h);
        assert(read(rest, h) == r);
        if kind is Wss {
            lemma_text_line("path"@, path, end, h);
            lemma_following(seq![entries[0]], seq![entries[1]], r);
            assert(seq![entries[0]] + seq![entries[1]] =~= entries);
        }
    }
}

proof fn lemma_blocks_part(
    cfg: ServerConfig,
    kinds: Seq<TransportKind>,
    rest: Seq<char>,
    r: Option<Seq<Entry>>,
)
    requires
        says(rest, r),
    ensures
        says(transport_blocks(cfg, kinds) + rest, following(blocks_entries(cfg, kinds), r)),
    decreases kinds.len(),
{
    if kinds.len() == 0 {
        assert(transport_blocks(cfg, kinds) + rest =~= rest);
        if let Some(others) = r {
            assert(blocks_entries(cfg, kinds) + others =~= others);
        }
        assert(following(blocks_entries(cfg, kinds), r) == r);
    } else {
        let front = kinds.drop_last();
        let block = transport_block(cfg, kinds.last());
        lemma_block_part(cfg, kinds.last(), rest, r);
        lemma_blocks_part(
            cfg,
            front,
            block + rest,
            following(block_entries(cfg, kinds.last()), r),
        );
        lemma_following(blocks_entries(cfg, front), block_entries(cfg, kinds.last()), r);
        assert(transport_blocks(cfg, kinds) + rest =~= transport_blocks(cfg, front) + (block
            + rest));
    }
}

proof fn lemma_security_literals()
    ensures
        document::header("[security]"@),
        "[security]\n"@ == "[security]"@ + seq!['\n'],
        "\n"@ == seq!['\n'],
        bare_key("server_secret"@),
        bare_key("username"@),
        bare_key("token"@),
{
    let h = "[security]"@;
    assert(document::header(h) && "[security]\n"@ =~= h + seq!['\n']) by {
        reveal_strlit("[security]");
        reveal_strlit("[security]\n");
        reveal_with_fuel(all_upto, 11);
    }
    assert("\n"@ =~= seq!['\n']) by {
        reveal_strlit("\n");
    }
    assert(bare_key("server_secret"@)) by {
        reveal_strlit("server_secret");
        reveal_with_fuel(all_upto, 14);
    }
    assert(bare_key("username"@)) by {
        reveal_strlit("username");
        reveal_with_fuel(all_upto, 9);
    }
    assert(bare_key("token"@)) by {
        reveal_strlit("token");
        reveal_with_fuel(all_upto, 6);
    }
}

proof fn lemma_security_part(
    cfg: ServerConfig,
    user: User,
    rest: Seq<char>,
    r: Option<Seq<Entry>>,
)
    requires
        says(rest, r),
    ensures
        says(security_section(cfg, user) + rest, following(security_entries(cfg, user), r)),
{
    let h = "[security]"@;
    lemma_security_literals();
    let r4 = "\n"@ + rest;
    let r3 = setting("token"@, user.token@) + r4;
    let r2 = setting("username"@, user.name@) + r3;
    let r1 = setting("server_secret"@, cfg.security.server_secret@) + r2;
    let all = security_section(cfg, user) + rest;
    assert(all =~= h + seq!['\n'] + r1);
    let entries = security_entries(cfg, user);
    assert forall|section: Seq<char>| #[trigger] read(all, section) == following(entries, r) by {
        lemma_header(h, r1, section);
        lemma_text_line("server_secret"@, cfg.security.server_secret@, r2, h);
        lemma_text_line("username"@, user.name@, r3, h);
        lemma_text_line("token"@, user.token@, r4, h);
        lemma_empty_line(rest, h);
        assert(read(rest, h) == r);
        let e1 = seq![entries[0]];
        let e2 = seq![entries[1]];
        let e3 = seq![entries[2]];
        lemma_following(e2, e3, r);
        lemma_following(e1, e2 + e3, r);
        assert(e1 + (e2 + e3) =~= entries);
    }
}

proof fn lemma_plain_line(line: Seq<char>, key: Seq<char>, value: Seq<char>)
    requires
        line == key + seq![' ', '=', ' ', '"'] + value + seq!['"', '\n'],
        all_upto(value, value.len(), |c: char| plain(c)),
    ensures
        line == setting(key, value),
{
    reveal_strlit(" = \"");
    reveal_strlit("\"\n");
    lemma_plain(value);
    assert(line =~= setting(key, value));
}

proof fn lemma_example_lines()
    ensures
        "name = \"ssh\"\n"@ == setting("name"@, "ssh"@),
        "type = \"tcp\"\n"@ == setting("type"@, "tcp"@),
        "local_addr = \"127.0.0.1:22\"\n"@ == setting("local_addr"@, "127.0.0.1:22"@),
        bare_key("name"@),
        bare_key("type"@),
        bare_key("local_addr"@),
{
    assert("name = \"ssh\"\n"@ == setting("name"@, "ssh"@) && bare_key("name"@)) by {
        reveal_strlit("name = \"ssh\"\n");
        reveal_strlit("name");
        reveal_strlit("ssh");
        reveal_with_fuel(all_upto, 5);
        assert("name = \"ssh\"\n"@ =~= "name"@ + seq![' ', '=', ' ', '"'] + "ssh"@ + seq![
            '"',
            '\n',
        ]);
        lemma_plain_line("name = \"ssh\"\n"@, "name"@, "ssh"@);
    }
    assert("type = \"tcp\"\n"@ == setting("type"@, "tcp"@) && bare_key("type"@)) by {
        reveal_strlit("type = \"tcp\"\n");
        reveal_strlit("type");
        reveal_strlit("tcp");
        reveal_with_fuel(all_upto, 5);
        assert("type = \"tcp\"\n"@ =~= "type"@ + seq![' ', '=', ' ', '"'] + "tcp"@ + seq![
            '"',
            '\n',
        ]);
        lemma_plain_line("type = \"tcp\"\n"@, "type"@, "tcp"@);
    }
    assert("local_addr = \"127.0.0.1:22\"\n"@ == setting("local_addr"@, "127.0.0.1:22"@)
        && bare_key("local_addr"@)) by {
        reveal_strlit("local_addr = \"127.0.0.1:22\"\n");
        reveal_strlit("local_addr");
        reveal_strlit("127.0.0.1:22");
        reveal_with_fuel(all_upto, 13);
        assert("local_addr = \"127.0.0.1:22\"\n"@ =~= "local_addr"@ + seq![' ', '=', ' ', '"']
            + "127.0.0.1:22"@ + seq!['"', '\n']);
        lemma_plain_line("local_addr = \"127.0.0.1:22\"\n"@, "local_addr"@, "127.0.0.1:22"@);
    }
}

proof fn lemma_example_literals()
    ensures
        document::comment("# Edit the proxy entries below to match your services.\n"@),
        document::comment("# Each [[proxies]] block forwards one local port to the server.\n"@),
        document::header("[[proxies]]"@),
        "[[proxies]]\n"@ == "[[proxies]]"@ + seq!['\n'],
        bare_key("remote_port"@),
        "remote_port = 20022\n"@ == "remote_port"@ + seq![' ', '=', ' '] + text::decimal(20022)
            + seq!['\n'],
{
    let edit = "# Edit the proxy entries below to match your services.\n"@;
    let each = "# Each [[proxies]] block forwards one local port to the server.\n"@;
    assert(document::comment(edit)) by {
        reveal_strlit("# Edit the proxy entries below to match your services.\n");
        reveal_with_fuel(all_upto, 65);
    }
    assert(document::comment(each)) by {
        reveal_strlit("# Each [[proxies]] block forwards one local port to the server.\n");
        reveal_with_fuel(all_upto, 75);
    }
    let h = "[[proxies]]"@;
    assert(document::header(h) && "[[proxies]]\n"@ =~= h + seq!['\n']) by {
        reveal_strlit("[[proxies]]");
        reveal_strlit("[[proxies]]\n");
        reveal_with_fuel(all_upto, 12);
    }
    let port = "remote_port = 20022\n"@;
    assert(bare_key("remote_port"@)) by {
        reveal_strlit("remote_port");
        reveal_with_fuel(all_upto, 12);
    }
    assert(port =~= "remote_port"@ + seq![' ', '=', ' '] + text::decimal(20022) + seq!['\n']) by {
        reveal_strlit("remote_port = 20022\n");
        reveal_strlit("remote_port");
        reveal_with_fuel(text::decimal, 6);
        assert(text::decimal(20022) =~= seq!['2', '0', '0', '2', '2']);
    }
}

proof fn lemma_example_part()
    ensures
        says(example_proxy(), Some(proxy_entries())),
{
    let edit = "# Edit the proxy entries below to match your services.\n"@;
    let each = "# Each [[proxies]] block forwards one local port to the server.\n"@;
    let h = "[[proxies]]"@;
    let port = "remote_port = 20022\n"@;
    let none = Seq::<char>::empty();
    lemma_example_literals();
    lemma_example_lines();
    let l1 = "name = \"ssh\"\n"@;
    let l2 = "type = \"tcp\"\n"@;
    let l3 = "local_addr = \"127.0.0.1:22\"\n"@;
    assert(port =~= "remote_port"@ + seq![' ', '=', ' '] + text::decimal(20022) + seq!['\n'] + none);
    let r3 = l3 + port;
    let r2 = l2 + r3;
    let r1 = l1 + r2;
    let from_header = h + seq!['\n'] + r1;
    assert(example_proxy() =~= edit + (each + from_header));
    let entries = proxy_entries();
    assert forall|section: Seq<char>| #[trigger] read(example_proxy(), section) == Some(entries) by {
        lemma_comment(edit, each + from_header, section);
        lemma_comment(each, from_header, section);
        lemma_header(h, r1, section);
        lemma_text_line("name"@, "ssh"@, r2, h);
        lemma_text_line("type"@, "tcp"@, r3, h);
        lemma_text_line("local_addr"@, "127.0.0.1:22"@, port, h);
        lemma_number_line("remote_port"@, 20022, none, h);
        let nothing = Some(Seq::<Entry>::empty());
        document::lemma_empty(h);
        let e1 = seq![entries[0]];
        let e2 = seq![entries[1]];
        let e3 = seq![entries[2]];
        let e4 = seq![entries[3]];
        lemma_following(e3, e4, nothing);
        lemma_following(e2, e3 + e4, nothing);
        lemma_following(e1, e2 + (e3 + e4), nothing);
        assert(e1 + (e2 + (e3 + e4)) + Seq::<Entry>::empty() =~= entries);
    }
}

// ---------------------------------------------------------------------------
// The whole file
// ---------------------------------------------------------------------------

/// A printed `srpc.toml` is well formed and says exactly what it was printed from:
/// the server's address and identity, the enabled transports in priority order with
/// a block for each, the user's credentials and the example proxy. That holds of
/// every configuration and user, whatever characters their texts are made of.
pub proof fn printed_client_configs_read_back(
    cfg: ServerConfig,
    noise_pubkey: Seq<char>,
    cert_fingerprint: Seq<char>,
    user: User,
    host_override: Option<&str>,
)
    ensures
        read(
            srpc_toml_with(cfg, noise_pubkey, cert_fingerprint, user, host_override),
            Seq::empty(),
        ) == Some(
            printed_settings(cfg, noise_pubkey, cert_fingerprint, user, host_override),
        ),
{
    let kinds = enabled_kinds(cfg);
    let host = host_of(cfg, host_override);
    let placeholder = host_override is None && cfg.public_host is None;
    let p = example_proxy();
    lemma_example_part();
    let e4 = proxy_entries();
    lemma_security_part(cfg, user, p, Some(e4));
    let s = security_section(cfg, user) + p;
    let e3 = security_entries(cfg, user) + e4;
    lemma_blocks_part(cfg, kinds, s, Some(e3));
    let b = transport_blocks(cfg, kinds) + s;
    let e2 = blocks_entries(cfg, kinds) + e3;
    lemma_client_part(host, kinds, noise_pubkey, cert_fingerprint, b, Some(e2));
    let c = client_section(host, kinds, noise_pubkey, cert_fingerprint) + b;
    let e1 = client_entries(host, kinds, noise_pubkey, cert_fingerprint) + e2;
    lemma_header_part(placeholder, c, Some(e1));
    let doc = srpc_toml_with(cfg, noise_pubkey, cert_fingerprint, user, host_override);
    assert(doc =~= header(placeholder) + c);
    assert(read(header(placeholder) + c, Seq::empty()) == Some(e1));
}

proof fn lemma_sections_differ()
    ensures
        "[client]"@.len() == 8,
        "[security]"@.len() == 10,
        "[[proxies]]"@.len() == 11,
        "[client.transports.quic]"@.len() == 24,
        "[client.transports.wss]"@.len() == 23,
        "[client.transports.tcp]"@.len() == 23,
        "[client.transports.wss]"@ != "[client.transports.tcp]"@,
{
    reveal_strlit("[client]");
    reveal_strlit("[security]");
    reveal_strlit("[[proxies]]");
    reveal_strlit("[client.transports.quic]");
    reveal_strlit("[client.transports.wss]");
    reveal_strlit("[client.transports.tcp]");
    assert("[client.transports.wss]"@[19] == 'w');
    assert("[client.transports.tcp]"@[19] == 't');
}

spec fn block_header(kind: TransportKind) -> Seq<char> {
    match kind {
        TransportKind::Quic => "[client.transports.quic]"@,
        TransportKind::Wss => "[client.transports.wss]"@,
        TransportKind::Tcp => "[client.transports.tcp]"@,
    }
}

/// A key that the block for a transport sets is set among all blocks if the
/// transport is listed; if it is not, nothing is set in its section.
proof fn lemma_blocks_set(
    cfg: ServerConfig,
    kinds: Seq<TransportKind>,
    kind: TransportKind,
    key: Seq<char>,
    value: Value,
)
    requires
        set_to(block_entries(cfg, kind), block_header(kind), key, value),
    ensures
        kinds.contains(kind) ==> set_to(
            blocks_entries(cfg, kinds),
            block_header(kind),
            key,
            value,
        ),
        !kinds.contains(kind) ==> unset(blocks_entries(cfg, kinds), block_header(kind)),
    decreases kinds.len(),
{
    if kinds.len() > 0 {
        let init = kinds.drop_last();
        lemma_blocks_set(cfg, init, kind, key, value);
        lemma_sections_differ();
        settings_add_up(
            blocks_entries(cfg, init),
            block_entries(cfg, kinds.last()),
            block_header(kind),
            key,
            value,
        );
        assert(kinds.last() != kind ==> unset(
            block_entries(cfg, kinds.last()),
            block_header(kind),
        ));
        if kinds.contains(kind) && kinds.last() != kind {
            let i = choose|i: int| 0 <= i < kinds.len() && kinds[i] == kind;
            assert(init[i] == kind);
        }
        if init.contains(kind) {
            let i = choose|i: int| 0 <= i < init.len() && init[i] == kind;
            assert(kinds[i] == kind);
        }
        if kinds.last() == kind {
            assert(kinds[kinds.len() - 1] == kind);
        }
    }
}

proof fn lemma_blocks_elsewhere(cfg: ServerConfig, kinds: Seq<TransportKind>, section: Seq<char>)
    requires
        section.len() < 20,
    ensures
        unset(blocks_entries(cfg, kinds), section),
    decreases kinds.len(),
{
    if kinds.len() > 0 {
        lemma_blocks_elsewhere(cfg, kinds.drop_last(), section);
        lemma_sections_differ();
        settings_add_up(
            blocks_entries(cfg, kinds.drop_last()),
            block_entries(cfg, kinds.last()),
            section,
            section,
            Value::Text(section),
        );
    }
}

/// Puts what one part of the settings sets among all of them, given that the other
/// parts set nothing in that section.
proof fn lemma_part_set(
    a: Seq<Entry>,
    b: Seq<Entry>,
    c: Seq<Entry>,
    d: Seq<Entry>,
    section: Seq<char>,
    key: Seq<char>,
    value: Value,
)
    requires
        unset(d, section),
        unset(b, section),
        (set_to(a, section, key, value) && unset(c, section)) || (unset(a, section) && set_to(
            c,
            section,
            key,
            value,
        )),
    ensures
        set_to(a + (b + (c + d)), section, key, value),
{
    settings_add_up(c, d, section, key, value);
    settings_add_up(b, c + d, section, key, value);
    settings_add_up(a, b + (c + d), section, key, value);
}

/// The keys of the file, each set to what the server and the user have: the file
/// names the host that was asked for, else the configured one, else a
/// placeholder; the server's keys; the user's own name and token; and the shared
/// secret.
pub proof fn printed_client_configs_name_server_and_user(
    cfg: ServerConfig,
    noise_pubkey: Seq<char>,
    cert_fingerprint: Seq<char>,
    user: User,
    host_override: Option<&str>,
)
    ensures
        ({
            let e = printed_settings(cfg, noise_pubkey, cert_fingerprint, user, host_override);
            let host = match host_override {
                Some(h) => h@,
                None => match cfg.public_host {
                    Some(h) => h@,
                    None => "<server-public-host>"@,
                },
            };
            &&& set_to(e, "[security]"@, "username"@, Value::Text(user.name@))
            &&& set_to(e, "[security]"@, "token"@, Value::Text(user.token@))
            &&& set_to(
                e,
                "[security]"@,
                "server_secret"@,
                Value::Text(cfg.security.server_secret@),
            )
            &&& set_to(e, "[client]"@, "server_host"@, Value::Text(host))
            &&& set_to(e, "[client]"@, "server_noise_pubkey"@, Value::Text(noise_pubkey))
            &&& set_to(e, "[client]"@, "server_cert_fingerprint"@, Value::Text(cert_fingerprint))
        }),
{
    let kinds = enabled_kinds(cfg);
    let host = host_of(cfg, host_override);
    let a = client_entries(host, kinds, noise_pubkey, cert_fingerprint);
    let b = blocks_entries(cfg, kinds);
    let c = security_entries(cfg, user);
    let d = proxy_entries();
    lemma_sections_differ();
    lemma_blocks_elsewhere(cfg, kinds, "[client]"@);
    lemma_blocks_elsewhere(cfg, kinds, "[security]"@);
    reveal_strlit("username");
    reveal_strlit("token");
    reveal_strlit("server_secret");
    reveal_strlit("server_host");
    reveal_strlit("transport_priority");
    reveal_strlit("server_noise_pubkey");
    reveal_strlit("server_cert_fingerprint");
    let secret = Value::Text(cfg.security.server_secret@);
    assert(c[0].value == secret && c[0].key == "server_secret"@);
    assert(c[1].value == Value::Text(user.name@) && c[1].key == "username"@);
    assert(c[2].value == Value::Text(user.token@) && c[2].key == "token"@);
    assert(a[0].value == Value::Text(host) && a[0].key == "server_host"@);
    assert(a[2].value == Value::Text(noise_pubkey) && a[2].key == "server_noise_pubkey"@);
    assert(a[3].value == Value::Text(cert_fingerprint) && a[3].key
        == "server_cert_fingerprint"@);
    lemma_part_set(a, b, c, d, "[security]"@, "server_secret"@, secret);
    lemma_part_set(a, b, c, d, "[security]"@, "username"@, Value::Text(user.name@));
    lemma_part_set(a, b, c, d, "[security]"@, "token"@, Value::Text(user.token@));
    lemma_part_set(a, b, c, d, "[client]"@, "server_host"@, Value::Text(host));
    lemma_part_set(a, b, c, d, "[client]"@, "server_noise_pubkey"@, Value::Text(noise_pubkey));
    lemma_part_set(
        a,
        b,
        c,
        d,
        "[client]"@,
        "server_cert_fingerprint"@,
        Value::Text(cert_fingerprint),
    );
}

/// The file lists the enabled transports by name, quic before wss before tcp, and
/// gives each of them the port, and WSS the path, on which the server has it. It
/// sets nothing for a transport that is not enabled.
pub proof fn printed_client_configs_name_the_transports(
    cfg: ServerConfig,
    noise_pubkey: Seq<char>,
    cert_fingerprint: Seq<char>,
    user: User,
    host_override: Option<&str>,
)
    ensures
        ({
            let e = printed_settings(cfg, noise_pubkey, cert_fingerprint, user, host_override);
            let t = cfg.transports;
            let quic = t.quic is Some && t.quic->0.enabled;
            let wss = t.wss is Some && t.wss->0.enabled;
            let tcp = t.tcp is Some && t.tcp->0.enabled;
            let listed = (if quic {
                seq!["quic"@]
            } else {
                Seq::empty()
            }) + (if wss {
                seq!["wss"@]
            } else {
                Seq::empty()
            }) + (if tcp {
                seq!["tcp"@]
            } else {
                Seq::empty()
            });
            let quic_block = "[client.transports.quic]"@;
            let wss_block = "[client.transports.wss]"@;
            let tcp_block = "[client.transports.tcp]"@;
            &&& set_to(e, "[client]"@, "transport_priority"@, Value::Texts(listed))
            &&& quic ==> set_to(
                e,
                quic_block,
                "port"@,
                Value::Number(t.quic->0.bind.port as nat),
            )
            &&& wss ==> set_to(e, wss_block, "port"@, Value::Number(t.wss->0.bind.port as nat))
            &&& wss ==> set_to(e, wss_block, "path"@, Value::Text(t.wss->0.path@))
            &&& tcp ==> set_to(e, tcp_block, "port"@, Value::Number(t.tcp->0.bind.port as nat))
            &&& !quic ==> unset(e, quic_block)
            &&& !wss ==> unset(e, wss_block)
            &&& !tcp ==> unset(e, tcp_block)
        }),
{
    let kinds = enabled_kinds(cfg);
    let host = host_of(cfg, host_override);
    let a = client_entries(host, kinds, noise_pubkey, cert_fingerprint);
    let b = blocks_entries(cfg, kinds);
    let c = security_entries(cfg, user);
    let d = proxy_entries();
    let t = cfg.transports;
    lemma_sections_differ();
    lemma_blocks_elsewhere(cfg, kinds, "[client]"@);
    listed_transports_are_the_enabled_ones(cfg);
    reveal_strlit("server_host");
    reveal_strlit("transport_priority");
    reveal_strlit("server_noise_pubkey");
    reveal_strlit("server_cert_fingerprint");
    reveal_strlit("port");
    reveal_strlit("path");
    let listed = (if t.on(TransportKind::Quic) {
        seq!["quic"@]
    } else {
        Seq::empty()
    }) + (if t.on(TransportKind::Wss) {
        seq!["wss"@]
    } else {
        Seq::empty()
    }) + (if t.on(TransportKind::Tcp) {
        seq!["tcp"@]
    } else {
        Seq::empty()
    });
    assert(kind_names(kinds) =~= listed);
    assert(a[1].value == Value::Texts(listed) && a[1].key == "transport_priority"@);
    lemma_part_set(a, b, c, d, "[client]"@, "transport_priority"@, Value::Texts(listed));
    let quic = Value::Number(t.quic->0.bind.port as nat);
    let tcp = Value::Number(t.tcp->0.bind.port as nat);
    let wss = Value::Number(t.wss->0.bind.port as nat);
    let path = Value::Text(t.wss->0.path@);
    assert(block_entries(cfg, TransportKind::Quic)[0].value == quic);
    assert(block_entries(cfg, TransportKind::Tcp)[0].value == tcp);
    assert(block_entries(cfg, TransportKind::Wss)[0].value == wss);
    assert(block_entries(cfg, TransportKind::Wss)[1].value == path);
    assert("port"@[1] == 'o' && "path"@[1] == 'a');
    lemma_block_among_all(cfg, a, c, d, TransportKind::Quic, "port"@, quic);
    lemma_block_among_all(cfg, a, c, d, TransportKind::Tcp, "port"@, tcp);
    lemma_block_among_all(cfg, a, c, d, TransportKind::Wss, "port"@, wss);
    lemma_block_among_all(cfg, a, c, d, TransportKind::Wss, "path"@, path);
}

/// The file ends with an example proxy, which forwards a TCP port to the local SSH
/// service.
pub proof fn printed_client_configs_show_an_example_proxy(
    cfg: ServerConfig,
    noise_pubkey: Seq<char>,
    cert_fingerprint: Seq<char>,
    user: User,
    host_override: Option<&str>,
)
    ensures
        ({
            let e = printed_settings(cfg, noise_pubkey, cert_fingerprint, user, host_override);
            let n = e.len() as int;
            &&& n >= 4
            &&& forall|k: int| n - 4 <= k < n ==> (#[trigger] e[k]).section == "[[proxies]]"@
            &&& forall|k: int| 0 <= k < n - 4 ==> (#[trigger] e[k]).section != "[[proxies]]"@
            &&& e[n - 4].key == "name"@ && e[n - 4].value == Value::Text("ssh"@)
            &&& e[n - 3].key == "type"@ && e[n - 3].value == Value::Text("tcp"@)
            &&& e[n - 2].key == "local_addr"@ && e[n - 2].value == Value::Text("127.0.0.1:22"@)
            &&& e[n - 1].key == "remote_port"@ && e[n - 1].value == Value::Number(20022)
        }),
{
    let kinds = enabled_kinds(cfg);
    let a = client_entries(host_of(cfg, host_override), kinds, noise_pubkey, cert_fingerprint);
    let b = blocks_entries(cfg, kinds);
    let c = security_entries(cfg, user);
    let d = proxy_entries();
    let e = a + (b + (c + d));
    let n = e.len() as int;
    lemma_sections_differ();
    lemma_blocks_elsewhere(cfg, kinds, "[[proxies]]"@);
    assert forall|k: int| n - 4 <= k < n implies #[trigger] e[k] == d[k - (n - 4)] by {}
    assert forall|k: int| 0 <= k < n - 4 implies (#[trigger] e[k]).section != "[[proxies]]"@ by {
        if k < a.len() {
            assert(e[k] == a[k]);
        } else if k < a.len() + b.len() {
            assert(e[k] == b[k - a.len()]);
        } else {
            assert(e[k] == c[k - a.len() - b.len()]);
        }
    }
}

proof fn lemma_block_among_all(
    cfg: ServerConfig,
    a: Seq<Entry>,
    c: Seq<Entry>,
    d: Seq<Entry>,
    kind: TransportKind,
    key: Seq<char>,
    value: Value,
)
    requires
        set_to(block_entries(cfg, kind), block_header(kind), key, value),
        unset(a, block_header(kind)),
        unset(c, block_header(kind)),
        unset(d, block_header(kind)),
    ensures
        ({
            let e = a + (blocks_entries(cfg, enabled_kinds(cfg)) + (c + d));
            &&& cfg.transports.on(kind) ==> set_to(e, block_header(kind), key, value)
            &&& !cfg.transports.on(kind) ==> unset(e, block_header(kind))
        }),
{
    let kinds = enabled_kinds(cfg);
    let b = blocks_entries(cfg, kinds);
    listed_transports_are_the_enabled_ones(cfg);
    lemma_blocks_set(cfg, kinds, kind, key, value);
    settings_add_up(c, d, block_header(kind), key, value);
    settings_add_up(b, c + d, block_header(kind), key, value);
    settings_add_up(a, b + (c + d), block_header(kind), key, value);
}

/// Whether `c` is the client configuration with the printed settings.
pub open spec fn has_settings(
    c: ClientConfig,
    cfg: ServerConfig,
    noise_pubkey: Seq<char>,
    cert_fingerprint: Seq<char>,
    user: User,
    host_override: Option<&str>,
) -> bool {
    let t = c.client.transports;
    &&& c.client.server_host@ == host_of(cfg, host_override)
    &&& c.client.transport_priority@ == enabled_kinds(cfg)
    &&& c.client.server_noise_pubkey@ == noise_pubkey
    &&& c.client.server_cert_fingerprint@ == cert_fingerprint
    &&& forall|kind: TransportKind| #[trigger] t.has(kind) <==> cfg.transports.on(kind)
    &&& t.quic matches Some(quic) ==> quic.port == cfg.transports.quic->0.bind.port
    &&& t.wss matches Some(wss) ==> wss.port == cfg.transports.wss->0.bind.port && wss.path@
        == cfg.transports.wss->0.path@
    &&& t.tcp matches Some(tcp) ==> tcp.port == cfg.transports.tcp->0.bind.port
    &&& c.security.server_secret@ == cfg.security.server_secret@
    &&& c.security.username@ == user.name@
    &&& c.security.token@ == user.token@
    &&& c.proxies@.len() == 1
    &&& c.proxies@[0].name@ == "ssh"@
    &&& c.proxies@[0].kind == ProxyKind::Tcp
    &&& c.proxies@[0].local_addr.text() == "127.0.0.1:22"@
    &&& c.proxies@[0].remote_port == 20022
}

/// A printed `srpc.toml` is ready to use: where the server's own configuration is
/// accepted and the server's host and identity are not blank, the client accepts
/// the configuration.
pub proof fn printed_client_configs_are_accepted(
    c: ClientConfig,
    cfg: ServerConfig,
    noise_pubkey: Seq<char>,
    cert_fingerprint: Seq<char>,
    user: User,
    host_override: Option<&str>,
)
    requires
        has_settings(c, cfg, noise_pubkey, cert_fingerprint, user, host_override),
        config::objection(cfg) is None,
        text::trimmed(host_of(cfg, host_override)).len() > 0,
        text::trimmed(noise_pubkey).len() > 0,
        text::trimmed(cert_fingerprint).len() > 0,
    ensures
        srpc::config::objection(c) is None,
{
    listed_transports_are_the_enabled_ones(cfg);
    assert forall|i: int| 0 <= i < c.client.transport_priority@.len() implies c.client.transports.has(
        #[trigger] c.client.transport_priority@[i],
    ) by {
        assert(cfg.transports.on(enabled_kinds(cfg)[i]));
    }
    srpc::config::lemma_blocks_present(c.client.transport_priority@, c.client.transports);
    let names = srpc::config::proxy_names(c.proxies@);
    text::lemma_first_repeated(names);
}

} // verus!
