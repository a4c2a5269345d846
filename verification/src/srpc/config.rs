//! Configuration types and validation for `rs_srpc`.

use vstd::prelude::*;
use vstd::string::*;

use crate::text::{self, blank, first_repeat};
use crate::types::{Endpoint, ProxyKind, TransportKind};

verus! {

// ── Top-level config ──────────────────────────────────────────────────────────

#[derive(Debug)]
pub struct ClientConfig {
    pub client: ClientSection,
    pub security: ClientSecurity,
    pub proxies: Vec<ProxyRule>,
}

// ── [client] section ──────────────────────────────────────────────────────────

#[derive(Debug)]
pub struct ClientSection {
    pub server_host: String,
    pub transport_priority: Vec<TransportKind>,
    pub server_noise_pubkey: String,
    pub server_cert_fingerprint: String,
    pub transports: ClientTransports,
}

#[derive(Debug)]
pub struct ClientTransports {
    pub tcp: Option<ClientTcp>,
    pub quic: Option<ClientQuic>,
    pub wss: Option<ClientWss>,
}

#[derive(Debug)]
pub struct ClientTcp {
    pub port: u16,
}

#[derive(Debug)]
pub struct ClientQuic {
    pub port: u16,
}

#[derive(Debug)]
pub struct ClientWss {
    pub port: u16,
    pub path: String,
}

/// The path of the WebSocket endpoint where none is configured.
pub fn default_wss_path() -> (path: String)
    ensures
        path@ == "/srp-tunnel"@,
{
    "/srp-tunnel".to_owned()
}

// ── [security] section ────────────────────────────────────────────────────────

#[derive(Debug)]
pub struct ClientSecurity {
    pub server_secret: String,
    pub username: String,
    pub token: String,
}

// ── [[proxies]] entries ───────────────────────────────────────────────────────

#[derive(Debug)]
pub struct ProxyRule {
    pub name: String,
    pub kind: ProxyKind,
    pub local_addr: Endpoint,
    pub remote_port: u16,
}

/// The names of proxies, in order.
pub open spec fn proxy_names(proxies: Seq<ProxyRule>) -> Seq<Seq<char>> {
    Seq::new(proxies.len(), |i: int| proxies[i].name@)
}

// ── Validation ────────────────────────────────────────────────────────────────

impl ClientTransports {
    /// Whether there is a block for `kind`.
    pub open spec fn has(self, kind: TransportKind) -> bool {
        match kind {
            TransportKind::Tcp => self.tcp is Some,
            TransportKind::Quic => self.quic is Some,
            TransportKind::Wss => self.wss is Some,
        }
    }

    /// Whether there is a block for `kind`.
    pub fn has_block(&self, kind: TransportKind) -> (r: bool)
        ensures
            r == self.has(kind),
            r == match kind {
                TransportKind::Tcp => self.tcp is Some,
                TransportKind::Quic => self.quic is Some,
                TransportKind::Wss => self.wss is Some,
            },
    {
        match kind {
            TransportKind::Tcp => self.tcp.is_some(),
            TransportKind::Quic => self.quic.is_some(),
            TransportKind::Wss => self.wss.is_some(),
        }
    }
}

/// What is wrong with a configuration.
#[derive(Debug)]
pub enum ConfigError {
    /// No transport is listed.
    EmptyPriority,
    /// A listed transport has no block.
    MissingBlock(TransportKind),
    /// The server's host is blank.
    EmptyHost,
    /// The server's Noise public key is blank.
    EmptyNoiseKey,
    /// The server's certificate fingerprint is blank.
    EmptyFingerprint,
    /// Two proxies have the same name.
    DuplicateProxy(String),
}

/// A [`ConfigError`] by the characters of its texts.
pub enum ConfigErrorView {
    EmptyPriority,
    MissingBlock(TransportKind),
    EmptyHost,
    EmptyNoiseKey,
    EmptyFingerprint,
    DuplicateProxy(Seq<char>),
}

impl View for ConfigError {
    type V = ConfigErrorView;

    open spec fn view(&self) -> ConfigErrorView {
        match *self {
            ConfigError::EmptyPriority => ConfigErrorView::EmptyPriority,
            ConfigError::MissingBlock(kind) => ConfigErrorView::MissingBlock(kind),
            ConfigError::EmptyHost => ConfigErrorView::EmptyHost,
            ConfigError::EmptyNoiseKey => ConfigErrorView::EmptyNoiseKey,
            ConfigError::EmptyFingerprint => ConfigErrorView::EmptyFingerprint,
            ConfigError::DuplicateProxy(name) => ConfigErrorView::DuplicateProxy(name@),
        }
    }
}

impl ConfigErrorView {
    /// What is said of the error.
    pub open spec fn text(self) -> Seq<char> {
        match self {
            ConfigErrorView::EmptyPriority => "client.transport_priority must not be empty"@,
            ConfigErrorView::MissingBlock(kind) => "transport '"@ + kind.name()
                + "' is listed in transport_priority but has no [client.transports."@ + kind.name()
                + "] block"@,
            ConfigErrorView::EmptyHost => "client.server_host must not be empty"@,
            ConfigErrorView::EmptyNoiseKey => "client.server_noise_pubkey must not be empty"@,
            ConfigErrorView::EmptyFingerprint => {
                "client.server_cert_fingerprint must not be empty"@
            },
            ConfigErrorView::DuplicateProxy(name) => "duplicate proxy name: '"@ + name + "'"@,
        }
    }
}

impl ConfigError {
    /// What is said of the error.
    pub fn message(&self) -> (s: String)
        ensures
            s@ == self@.text(),
            s@ == match *self {
                ConfigError::EmptyPriority => "client.transport_priority must not be empty"@,
                ConfigError::MissingBlock(kind) => "transport '"@ + kind.name()
                    + "' is listed in transport_priority but has no [client.transports."@
                    + kind.name() + "] block"@,
                ConfigError::EmptyHost => "client.server_host must not be empty"@,
                ConfigError::EmptyNoiseKey => "client.server_noise_pubkey must not be empty"@,
                ConfigError::EmptyFingerprint => {
                    "client.server_cert_fingerprint must not be empty"@
                },
                ConfigError::DuplicateProxy(name) => "duplicate proxy name: '"@ + name@ + "'"@,
            },
    {
        match self {
            ConfigError::EmptyPriority => "client.transport_priority must not be empty".to_owned(),
            ConfigError::MissingBlock(kind) => {
                let mut s = "transport '".to_owned();
                s.append(kind.as_str());
                s.append("' is listed in transport_priority but has no [client.transports.");
                s.append(kind.as_str());
                s.append("] block");
                s
            },
            ConfigError::EmptyHost => "client.server_host must not be empty".to_owned(),
            ConfigError::EmptyNoiseKey => "client.server_noise_pubkey must not be empty".to_owned(),
            ConfigError::EmptyFingerprint => {
                "client.server_cert_fingerprint must not be empty".to_owned()
            },
            ConfigError::DuplicateProxy(name) => {
                let mut s = "duplicate proxy name: '".to_owned();
                s.append(name.as_str());
                s.append("'");
                s
            },
        }
    }
}

/// The first of `kinds` that has no block.
pub open spec fn first_without_block(
    kinds: Seq<TransportKind>,
    transports: ClientTransports,
) -> Option<TransportKind>
    decreases kinds.len(),
{
    if kinds.len() == 0 {
        None
    } else if !transports.has(kinds[0]) {
        Some(kinds[0])
    } else {
        first_without_block(kinds.skip(1), transports)
    }
}

/// The first thing that is wrong with a configuration, in the order in which the
/// rules apply.
pub open spec fn objection(cfg: ClientConfig) -> Option<ConfigErrorView> {
    let c = cfg.client;
    let names = proxy_names(cfg.proxies@);
    if c.transport_priority@.len() == 0 {
        Some(ConfigErrorView::EmptyPriority)
    } else if let Some(kind) = first_without_block(c.transport_priority@, c.transports) {
        Some(ConfigErrorView::MissingBlock(kind))
    } else if text::trimmed(c.server_host@).len() == 0 {
        Some(ConfigErrorView::EmptyHost)
    } else if text::trimmed(c.server_noise_pubkey@).len() == 0 {
        Some(ConfigErrorView::EmptyNoiseKey)
    } else if text::trimmed(c.server_cert_fingerprint@).len() == 0 {
        Some(ConfigErrorView::EmptyFingerprint)
    } else if text::first_repeated(names) < names.len() {
        Some(ConfigErrorView::DuplicateProxy(names[text::first_repeated(names) as int]))
    } else {
        None
    }
}

/// Validates a configuration, reporting the first rule it breaks.
pub fn validate(cfg: &ClientConfig) -> (r: Result<(), ConfigError>)
    ensures
        r is Ok <==> objection(*cfg) is None,
        r matches Err(e) ==> objection(*cfg) == Some(e@),
        r matches Err(ConfigError::EmptyPriority) <==> cfg.client.transport_priority@.len() == 0,
        r matches Err(ConfigError::MissingBlock(kind)) ==> (match kind {
            TransportKind::Tcp => cfg.client.transports.tcp is None,
            TransportKind::Quic => cfg.client.transports.quic is None,
            TransportKind::Wss => cfg.client.transports.wss is None,
        }) && cfg.client.transport_priority@.contains(kind),
        r matches Err(ConfigError::EmptyHost) ==> forall|k: int|
            0 <= k < cfg.client.server_host@.len() ==> text::is_space(
                #[trigger] cfg.client.server_host@[k],
            ),
        r matches Err(ConfigError::EmptyNoiseKey) ==> forall|k: int|
            0 <= k < cfg.client.server_noise_pubkey@.len() ==> text::is_space(
                #[trigger] cfg.client.server_noise_pubkey@[k],
            ),
        r matches Err(ConfigError::EmptyFingerprint) ==> forall|k: int|
            0 <= k < cfg.client.server_cert_fingerprint@.len() ==> text::is_space(
                #[trigger] cfg.client.server_cert_fingerprint@[k],
            ),
        r matches Err(ConfigError::DuplicateProxy(name)) ==> exists|i: int, j: int|
            0 <= i < j < cfg.proxies@.len() && (#[trigger] cfg.proxies@[i]).name@ == name@ && (
            #[trigger] cfg.proxies@[j]).name@ == name@,
        r is Ok ==> (forall|i: int, j: int|
            0 <= i < j < cfg.proxies@.len() ==> (#[trigger] cfg.proxies@[i]).name@ != (
            #[trigger] cfg.proxies@[j]).name@),
{
    proof {
        configs_are_accepted_if_complete(*cfg);
    }
    let c = &cfg.client;

    // transport_priority must be non-empty
    if c.transport_priority.len() == 0 {
        return Err(ConfigError::EmptyPriority);
    }

    // Every transport listed in priority must have a matching [client.transports.X] block
    let mut i: usize = 0;
    assert(c.transport_priority@.skip(0) =~= c.transport_priority@);
    while i < c.transport_priority.len()
        invariant
            i <= c.transport_priority@.len(),
            *c == cfg.client,
            c.transport_priority@.len() > 0,
            first_without_block(c.transport_priority@.skip(i as int), c.transports)
                == first_without_block(c.transport_priority@, c.transports),
        decreases c.transport_priority@.len() - i,
    {
        let kind = c.transport_priority[i];
        if !c.transports.has_block(kind) {
            return Err(ConfigError::MissingBlock(kind));
        }
        assert(c.transport_priority@.skip(i as int).skip(1) =~= c.transport_priority@.skip(i + 1));
        i += 1;
    }

    // server_host, server_noise_pubkey, server_cert_fingerprint must be non-empty
    if blank(c.server_host.as_str()) {
        return Err(ConfigError::EmptyHost);
    }
    if blank(c.server_noise_pubkey.as_str()) {
        return Err(ConfigError::EmptyNoiseKey);
    }
    if blank(c.server_cert_fingerprint.as_str()) {
        return Err(ConfigError::EmptyFingerprint);
    }

    // Proxy names must be unique
    let mut names: Vec<&str> = Vec::new();
    let mut k: usize = 0;
    while k < cfg.proxies.len()
        invariant
            k <= cfg.proxies@.len(),
            names@.len() == k,
            forall|j: int| 0 <= j < k ==> names@[j]@ == #[trigger] cfg.proxies@[j].name@,
        decreases cfg.proxies@.len() - k,
    {
        names.push(cfg.proxies[k].name.as_str());
        k += 1;
    }
    assert(text::strs(names@) =~= proxy_names(cfg.proxies@));
    let repeat: usize = first_repeat(&names);
    if repeat < names.len() {
        return Err(ConfigError::DuplicateProxy(cfg.proxies[repeat].name.clone()));
    }
    Ok(())
}

/// A configuration is accepted exactly if it lists a transport, has a block for
/// every transport that it lists, holds more than spaces for host, key and
/// fingerprint, and has no two proxies of one name. Otherwise the error says which
/// of these fails first.
pub proof fn configs_are_accepted_if_complete(cfg: ClientConfig)
    ensures
        ({
            let c = cfg.client;
            let listed = c.transport_priority@.len() > 0;
            let blocks = forall|i: int|
                0 <= i < c.transport_priority@.len() ==> (match #[trigger] c.transport_priority@[i] {
                    TransportKind::Tcp => c.transports.tcp is Some,
                    TransportKind::Quic => c.transports.quic is Some,
                    TransportKind::Wss => c.transports.wss is Some,
                });
            let host = exists|k: int|
                0 <= k < c.server_host@.len() && !text::is_space(#[trigger] c.server_host@[k]);
            let key = exists|k: int|
                0 <= k < c.server_noise_pubkey@.len() && !text::is_space(
                    #[trigger] c.server_noise_pubkey@[k],
                );
            let print = exists|k: int|
                0 <= k < c.server_cert_fingerprint@.len() && !text::is_space(
                    #[trigger] c.server_cert_fingerprint@[k],
                );
            let distinct = forall|i: int, j: int|
                0 <= i < j < cfg.proxies@.len() ==> (#[trigger] cfg.proxies@[i]).name@ != (
                #[trigger] cfg.proxies@[j]).name@;
            let o = objection(cfg);
            &&& o is None <==> listed && blocks && host && key && print && distinct
            &&& o == Some(ConfigErrorView::EmptyPriority) <==> !listed
            &&& (o is Some && o->0 is MissingBlock) <==> listed && !blocks
            &&& o == Some(ConfigErrorView::EmptyHost) <==> listed && blocks && !host
            &&& o == Some(ConfigErrorView::EmptyNoiseKey) <==> listed && blocks && host && !key
            &&& o == Some(ConfigErrorView::EmptyFingerprint) <==> listed && blocks && host && key
                && !print
            &&& (o is Some && o->0 is DuplicateProxy) <==> listed && blocks && host && key && print
                && !distinct
        }),
        objection(cfg) matches Some(ConfigErrorView::DuplicateProxy(name)) ==> exists|
            i: int,
            j: int,
        |
            0 <= i < j < cfg.proxies@.len() && (#[trigger] cfg.proxies@[i]).name@ == name && (
            #[trigger] cfg.proxies@[j]).name@ == name,
        objection(cfg) matches Some(ConfigErrorView::MissingBlock(kind)) ==> exists|i: int|
            0 <= i < cfg.client.transport_priority@.len()
                && #[trigger] cfg.client.transport_priority@[i] == kind
                && !cfg.client.transports.has(kind),
{
    let c = cfg.client;
    let kinds = c.transport_priority@;
    text::only_spaces_trim_to_nothing(c.server_host@);
    text::only_spaces_trim_to_nothing(c.server_noise_pubkey@);
    text::only_spaces_trim_to_nothing(c.server_cert_fingerprint@);
    if first_without_block(kinds, c.transports) is None {
        lemma_no_block_missing(kinds, c.transports);
        assert(forall|i: int| 0 <= i < kinds.len() ==> c.transports.has(#[trigger] kinds[i]));
    } else {
        lemma_block_missing(kinds, c.transports);
    }
    let names = proxy_names(cfg.proxies@);
    text::lemma_first_repeated(names);
    let at = text::first_repeated(names) as int;
    if at < names.len() {
        let j = choose|j: int| 0 <= j < at && #[trigger] names[j] == names[at];
        assert(cfg.proxies@[j].name@ == cfg.proxies@[at].name@);
    } else {
        assert forall|i: int, j: int| 0 <= i < j < cfg.proxies@.len() implies (
        #[trigger] cfg.proxies@[i]).name@ != (#[trigger] cfg.proxies@[j]).name@ by {
            assert(!text::repeats(names, j));
            assert(names[i] != names[j]);
        }
    }
}

proof fn lemma_block_missing(kinds: Seq<TransportKind>, transports: ClientTransports)
    requires
        first_without_block(kinds, transports) is Some,
    ensures
        exists|i: int|
            0 <= i < kinds.len() && #[trigger] kinds[i] == first_without_block(kinds, transports)->0
                && !transports.has(kinds[i]),
    decreases kinds.len(),
{
    if transports.has(kinds[0]) {
        let rest = kinds.skip(1);
        lemma_block_missing(rest, transports);
        let i = choose|i: int|
            0 <= i < rest.len() && #[trigger] rest[i] == first_without_block(rest, transports)->0
                && !transports.has(rest[i]);
        assert(kinds[i + 1] == rest[i]);
    }
}

/// In a configuration that is accepted every listed transport has a block, and a
/// proxy is known by its name.
pub proof fn accepted_configs_are_complete(cfg: ClientConfig)
    requires
        objection(cfg) is None,
    ensures
        cfg.client.transport_priority@.len() > 0,
        forall|i: int|
            0 <= i < cfg.client.transport_priority@.len() ==> cfg.client.transports.has(
                #[trigger] cfg.client.transport_priority@[i],
            ),
        forall|i: int, j: int|
            0 <= i < j < cfg.proxies@.len() ==> #[trigger] cfg.proxies@[i].name@
                != #[trigger] cfg.proxies@[j].name@,
{
    lemma_no_block_missing(cfg.client.transport_priority@, cfg.client.transports);
    let names = proxy_names(cfg.proxies@);
    text::lemma_first_repeated(names);
    assert forall|i: int, j: int| 0 <= i < j < cfg.proxies@.len() implies #[trigger] cfg.proxies@[i].name@
        != #[trigger] cfg.proxies@[j].name@ by {
        assert(!text::repeats(names, j));
        assert(names[i] == cfg.proxies@[i].name@);
        assert(names[j] == cfg.proxies@[j].name@);
    }
}

/// Where every one of `kinds` has a block, none is found to be without.
pub proof fn lemma_blocks_present(kinds: Seq<TransportKind>, transports: ClientTransports)
    requires
        forall|i: int| 0 <= i < kinds.len() ==> transports.has(#[trigger] kinds[i]),
    ensures
        first_without_block(kinds, transports) is None,
    decreases kinds.len(),
{
    if kinds.len() > 0 {
        assert(transports.has(kinds[0]));
        let tail = kinds.skip(1);
        assert forall|i: int| 0 <= i < tail.len() implies transports.has(#[trigger] tail[i]) by {
            assert(tail[i] == kinds[i + 1]);
        }
        lemma_blocks_present(tail, transports);
    }
}

proof fn lemma_no_block_missing(kinds: Seq<TransportKind>, transports: ClientTransports)
    requires
        first_without_block(kinds, transports) is None,
    ensures
        forall|i: int| 0 <= i < kinds.len() ==> transports.has(#[trigger] kinds[i]),
    decreases kinds.len(),
{
    if kinds.len() > 0 {
        lemma_no_block_missing(kinds.skip(1), transports);
        assert forall|i: int| 0 <= i < kinds.len() implies transports.has(#[trigger] kinds[i]) by {
            if i > 0 {
                assert(kinds.skip(1)[i - 1] == kinds[i]);
            }
        }
    }
}

} // verus!
