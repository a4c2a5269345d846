//! Server configuration: schema and validation.

use vstd::prelude::*;
use vstd::string::*;

use crate::text::{self, find_char, first_repeat, number, parse_port, quoted, to_chars};
use crate::types::{Endpoint, TransportKind};

verus! {

// ---------------------------------------------------------------------------
// Schema
// ---------------------------------------------------------------------------

#[derive(Debug, Clone)]
pub struct ServerConfig {
    /// Hostname advertised to clients via `client-config`. Optional.
    pub public_host: Option<String>,
    /// Directory where the server's cryptographic identity is persisted.
    pub state_dir: String,
    pub transports: Transports,
    pub security: Security,
    pub users: Vec<User>,
    /// Operations dashboard. Defaults to enabled on 127.0.0.1:1564.
    pub dashboard: DashboardConfig,
}

#[derive(Debug, Clone)]
pub struct Transports {
    pub tcp: Option<TransportListener>,
    pub quic: Option<TransportListener>,
    pub wss: Option<WssListener>,
}

#[derive(Debug, Clone)]
pub struct TransportListener {
    pub enabled: bool,
    pub bind: Endpoint,
}

#[derive(Debug, Clone)]
pub struct WssListener {
    pub enabled: bool,
    pub bind: Endpoint,
    pub path: String,
}

#[derive(Debug, Clone)]
pub struct Security {
    pub server_secret: String,
}

#[derive(Debug, Clone)]
pub struct User {
    pub name: String,
    pub token: String,
    pub allow_remote_ports: Vec<String>,
}

/// Operations dashboard configuration.
#[derive(Debug, Clone)]
pub struct DashboardConfig {
    pub enabled: bool,
    /// Address the dashboard HTTP server binds. Default 127.0.0.1:1564 —
    /// loopback-only, so remote access goes through an SSH tunnel.
    pub bind: Endpoint,
}

impl Default for DashboardConfig {
    fn default() -> (d: Self)
        ensures
            d.enabled,
            d.bind.host@ == "127.0.0.1"@,
            d.bind.port == 1564,
    {
        DashboardConfig { enabled: true, bind: default_dashboard_bind() }
    }
}

/// Where the dashboard listens if nothing is configured.
pub fn default_dashboard_bind() -> (bind: Endpoint)
    ensures
        bind.host@ == "127.0.0.1"@,
        bind.port == 1564,
{
    Endpoint { host: "127.0.0.1".to_owned(), port: 1564 }
}

/// Whether a listener is enabled if nothing is configured.
pub fn default_true() -> (b: bool)
    ensures
        b,
{
    true
}

/// The path of the WebSocket endpoint if none is configured.
pub fn default_wss_path() -> (path: String)
    ensures
        path@ == "/srp-tunnel"@,
{
    "/srp-tunnel".to_owned()
}

impl Transports {
    /// Whether the listener for `kind` is present and enabled.
    pub open spec fn on(self, kind: TransportKind) -> bool {
        match kind {
            TransportKind::Tcp => self.tcp matches Some(t) && t.enabled,
            TransportKind::Quic => self.quic matches Some(t) && t.enabled,
            TransportKind::Wss => self.wss matches Some(t) && t.enabled,
        }
    }

    /// Whether the listener for `kind` is present and enabled.
    pub fn is_enabled(&self, kind: TransportKind) -> (r: bool)
        ensures
            r == self.on(kind),
            r == match kind {
                TransportKind::Tcp => self.tcp is Some && self.tcp->0.enabled,
                TransportKind::Quic => self.quic is Some && self.quic->0.enabled,
                TransportKind::Wss => self.wss is Some && self.wss->0.enabled,
            },
    {
        match kind {
            TransportKind::Tcp => match &self.tcp {
                Some(t) => t.enabled,
                None => false,
            },
            TransportKind::Quic => match &self.quic {
                Some(t) => t.enabled,
                None => false,
            },
            TransportKind::Wss => match &self.wss {
                Some(t) => t.enabled,
                None => false,
            },
        }
    }
}

/// The names of users, in order.
pub open spec fn user_names(users: Seq<User>) -> Seq<Seq<char>> {
    Seq::new(users.len(), |i: int| users[i].name@)
}

// ---------------------------------------------------------------------------
// Port-range parser
// ---------------------------------------------------------------------------

/// A validated port range. `lo == hi` for a single port.
#[derive(Debug, Clone, Copy, PartialEq, Eq, Structural)]
pub struct PortRange {
    pub lo: u16,
    pub hi: u16,
}

/// Why a text is not a port range.
#[derive(Debug)]
pub enum PortRangeError {
    /// What stands before the dash is not a port.
    Low(String),
    /// What stands behind the dash is not a port.
    High(String),
    /// The range, which is given as it was written, is upside down.
    Inverted { text: String, lo: u16, hi: u16 },
    /// There is no dash, and the text is not a port.
    Single(String),
}

/// What a text says about ports, by the characters of its pieces.
pub enum RangeView {
    Range { lo: u16, hi: u16 },
    Low(Seq<char>),
    High(Seq<char>),
    Inverted { text: Seq<char>, lo: u16, hi: u16 },
    Single(Seq<char>),
}

impl View for PortRangeError {
    type V = RangeView;

    open spec fn view(&self) -> RangeView {
        match *self {
            PortRangeError::Low(s) => RangeView::Low(s@),
            PortRangeError::High(s) => RangeView::High(s@),
            PortRangeError::Inverted { text, lo, hi } => RangeView::Inverted { text: text@, lo, hi },
            PortRangeError::Single(s) => RangeView::Single(s@),
        }
    }
}

impl RangeView {
    /// What is said of an entry that is not a port range, where the piece of it
    /// that is to blame is given in quotes.
    pub open spec fn text_with(self, piece: Seq<char>) -> Seq<char> {
        match self {
            RangeView::Low(_) => "low port "@ + piece + " is not a valid u16"@,
            RangeView::High(_) => "high port "@ + piece + " is not a valid u16"@,
            RangeView::Inverted { text, lo, hi } => "port range "@ + piece + ": low port "@
                + text::decimal(lo as nat) + " must be <= high port "@ + text::decimal(hi as nat),
            RangeView::Single(_) => piece + " is not a valid port number (u16)"@,
            RangeView::Range { .. } => Seq::empty(),
        }
    }

    /// The piece of the entry that is to blame.
    pub open spec fn piece(self) -> Seq<char> {
        match self {
            RangeView::Low(s) => s,
            RangeView::High(s) => s,
            RangeView::Inverted { text, .. } => text,
            RangeView::Single(s) => s,
            RangeView::Range { .. } => Seq::empty(),
        }
    }

    /// What is said of an entry that is not a port range.
    pub open spec fn text(self) -> Seq<char> {
        self.text_with(text::quoted_text(self.piece()))
    }
}

impl PortRangeError {
    /// What is said of the error, where the piece of the entry that is to blame is
    /// given in quotes.
    pub fn message_with(&self, piece: &str) -> (s: String)
        ensures
            s@ == self@.text_with(piece@),
            s@ == match *self {
                PortRangeError::Low(_) => "low port "@ + piece@ + " is not a valid u16"@,
                PortRangeError::High(_) => "high port "@ + piece@ + " is not a valid u16"@,
                PortRangeError::Inverted { text, lo, hi } => "port range "@ + piece@
                    + ": low port "@ + text::decimal(lo as nat) + " must be <= high port "@
                    + text::decimal(hi as nat),
                PortRangeError::Single(_) => piece@ + " is not a valid port number (u16)"@,
            },
    {
        match self {
            PortRangeError::Low(_) => {
                let mut s = "low port ".to_owned();
                s.append(piece);
                s.append(" is not a valid u16");
                s
            },
            PortRangeError::High(_) => {
                let mut s = "high port ".to_owned();
                s.append(piece);
                s.append(" is not a valid u16");
                s
            },
            PortRangeError::Inverted { text, lo, hi } => {
                let mut s = "port range ".to_owned();
                s.append(piece);
                s.append(": low port ");
                s.append(number(*lo as u64).as_str());
                s.append(" must be <= high port ");
                s.append(number(*hi as u64).as_str());
                s
            },
            PortRangeError::Single(_) => {
                let mut s = piece.to_owned();
                s.append(" is not a valid port number (u16)");
                s
            },
        }
    }

    /// The piece of the entry that is to blame.
    pub fn piece(&self) -> (s: &str)
        ensures
            s@ == self@.piece(),
            s@ == match *self {
                PortRangeError::Low(t) => t@,
                PortRangeError::High(t) => t@,
                PortRangeError::Inverted { text, .. } => text@,
                PortRangeError::Single(t) => t@,
            },
    {
        match self {
            PortRangeError::Low(s) => s.as_str(),
            PortRangeError::High(s) => s.as_str(),
            PortRangeError::Inverted { text, .. } => text.as_str(),
            PortRangeError::Single(s) => s.as_str(),
        }
    }

    /// What is said of the error.
    pub fn message(&self) -> (s: String)
        ensures
            s@ == self@.text(),
    {
        self.message_with(quoted(self.piece()).as_str())
    }
}

/// What `s` says about ports: `"N"` is one port, `"N-M"` a range, divided at the
/// first dash.
pub open spec fn range_of(s: Seq<char>) -> RangeView {
    let dash = text::index_of(s, '-') as int;
    if dash < s.len() {
        let lo_text = s.take(dash);
        let hi_text = s.skip(dash + 1);
        match (text::port_of(lo_text), text::port_of(hi_text)) {
            (None, _) => RangeView::Low(lo_text),
            (_, None) => RangeView::High(hi_text),
            (Some(lo), Some(hi)) => if lo > hi {
                RangeView::Inverted { text: s, lo, hi }
            } else {
                RangeView::Range { lo, hi }
            },
        }
    } else {
        match text::port_of(s) {
            Some(port) => RangeView::Range { lo: port, hi: port },
            None => RangeView::Single(s),
        }
    }
}

/// Ranges read back: two ports in decimal with a dash between them are the range
/// from the one to the other if they stand in order, else an error that names
/// both, and one port in decimal is the range of that port alone.
pub proof fn ranges_read_back(lo: u16, hi: u16)
    ensures
        ({
            let s = text::decimal(lo as nat) + seq!['-'] + text::decimal(hi as nat);
            &&& lo <= hi ==> range_of(s) == (RangeView::Range { lo, hi })
            &&& lo > hi ==> range_of(s) == (RangeView::Inverted { text: s, lo, hi })
        }),
        range_of(text::decimal(lo as nat)) == (RangeView::Range { lo, hi: lo }),
{
    let a = text::decimal(lo as nat);
    let b = text::decimal(hi as nat);
    let s = a + seq!['-'] + b;
    text::decimals_spell_their_number(lo as nat);
    text::decimals_spell_their_number(hi as nat);
    text::ports_read_back(lo);
    text::ports_read_back(hi);
    assert forall|k: int| 0 <= k < a.len() implies s[k] != '-' && a[k] != '-' by {
        assert(text::is_digit(a[k]));
        assert(s[k] == a[k]);
    }
    text::lemma_index_of_unique(s, '-', a.len() as int);
    text::lemma_index_of_unique(a, '-', a.len() as int);
    assert(s.take(a.len() as int) =~= a);
    assert(s.skip(a.len() as int + 1) =~= b);
}

/// A range has its ends in order, and the text names them: what stands before the
/// first dash spells the low end and what stands behind it the high end, or the
/// whole text spells both where there is no dash.
pub proof fn ranges_name_their_ends(s: Seq<char>)
    requires
        range_of(s) is Range,
    ensures
        ({
            let lo = range_of(s)->Range_lo;
            let hi = range_of(s)->Range_hi;
            &&& lo <= hi
            &&& !s.contains('-') ==> text::port_of(s) == Some(lo) && hi == lo
            &&& s.contains('-') ==> exists|d: int|
                0 <= d < s.len() && #[trigger] s[d] == '-' && text::port_of(s.take(d)) == Some(lo)
                    && text::port_of(s.skip(d + 1)) == Some(hi)
        }),
{
    text::lemma_index_of(s, '-');
    let d = text::index_of(s, '-') as int;
    if d < s.len() {
        assert(s[d] == '-');
    }
}

/// An entry is divided at its first dash: what stands before it must spell the low
/// port and what stands behind it the high one, in this order, and whatever does
/// not is to blame. An entry without a dash must spell a port.
pub proof fn entries_are_divided_at_the_first_dash(a: Seq<char>, b: Seq<char>)
    requires
        !a.contains('-'),
    ensures
        ({
            let s = a + seq!['-'] + b;
            match (text::port_of(a), text::port_of(b)) {
                (Some(lo), Some(hi)) => if lo <= hi {
                    range_of(s) == (RangeView::Range { lo, hi })
                } else {
                    range_of(s) == (RangeView::Inverted { text: s, lo, hi })
                },
                (Some(_), None) => range_of(s) == RangeView::High(b),
                (None, _) => range_of(s) == RangeView::Low(a),
            }
        }),
        text::port_of(a) is Some ==> range_of(a) == (RangeView::Range {
            lo: text::port_of(a)->0,
            hi: text::port_of(a)->0,
        }),
        text::port_of(a) is None ==> range_of(a) == RangeView::Single(a),
{
    let s = a + seq!['-'] + b;
    let n = a.len() as int;
    assert forall|k: int| 0 <= k < n implies s[k] != '-' && a[k] != '-' by {
        assert(s[k] == a[k]);
        assert(a.contains(a[k]));
    }
    assert(s[n] == '-');
    text::lemma_index_of_unique(s, '-', n);
    text::lemma_index_of_unique(a, '-', n);
    assert(s.take(n) =~= a);
    assert(s.skip(n + 1) =~= b);
}

/// Parses a single port-range string: either `"N"` or `"N-M"` (N ≤ M, both
/// valid u16 values). Returns an error with a helpful message on failure.
pub fn parse_port_range(s: &str) -> (r: Result<PortRange, PortRangeError>)
    ensures
        r matches Ok(range) ==> range_of(s@) == (RangeView::Range { lo: range.lo, hi: range.hi })
            && range.lo <= range.hi,
        r matches Err(e) ==> range_of(s@) == e@ && !(range_of(s@) is Range),
        r matches Ok(range) ==> if s@.contains('-') {
            exists|d: int|
                0 <= d < s@.len() && #[trigger] s@[d] == '-' && text::port_of(s@.take(d)) == Some(
                    range.lo,
                ) && text::port_of(s@.skip(d + 1)) == Some(range.hi)
        } else {
            text::port_of(s@) == Some(range.lo) && range.hi == range.lo
        },
        r matches Err(PortRangeError::Single(t)) ==> t@ == s@ && text::port_of(s@) is None,
        r matches Err(PortRangeError::Low(t)) ==> text::port_of(t@) is None,
        r matches Err(PortRangeError::High(t)) ==> text::port_of(t@) is None,
        r matches Err(PortRangeError::Inverted { text, lo, hi }) ==> text@ == s@ && lo > hi,
{
    proof {
        if range_of(s@) is Range {
            ranges_name_their_ends(s@);
        }
    }
    let v = to_chars(s);
    let dash: usize = find_char(&v, 0, '-');
    assert(v@.skip(0) =~= s@);
    if dash < v.len() {
        let lo_str = s.substring_char(0, dash);
        let hi_str = s.substring_char(dash + 1, v.len());
        assert(lo_str@ =~= s@.take(dash as int));
        assert(hi_str@ =~= s@.skip(dash + 1));
        let lo: u16 = match parse_port(lo_str) {
            Some(lo) => lo,
            None => return Err(PortRangeError::Low(lo_str.to_owned())),
        };
        let hi: u16 = match parse_port(hi_str) {
            Some(hi) => hi,
            None => return Err(PortRangeError::High(hi_str.to_owned())),
        };
        if lo > hi {
            return Err(PortRangeError::Inverted { text: s.to_owned(), lo, hi });
        }
        Ok(PortRange { lo, hi })
    } else {
        match parse_port(s) {
            Some(port) => Ok(PortRange { lo: port, hi: port }),
            None => Err(PortRangeError::Single(s.to_owned())),
        }
    }
}

// ---------------------------------------------------------------------------
// Validation
// ---------------------------------------------------------------------------

/// What is wrong with a configuration.
#[derive(Debug)]
pub enum ConfigError {
    /// No transport is present and enabled.
    NoTransport,
    /// The shared secret is empty.
    EmptySecret,
    /// Two users have the same name.
    DuplicateUser(String),
    /// A port entry of a user is not a port range.
    BadPorts { entry: String, user: String, cause: PortRangeError },
}

/// A [`ConfigError`] by the characters of its texts.
pub enum ConfigErrorView {
    NoTransport,
    EmptySecret,
    DuplicateUser(Seq<char>),
    BadPorts { entry: Seq<char>, user: Seq<char> },
}

impl View for ConfigError {
    type V = ConfigErrorView;

    open spec fn view(&self) -> ConfigErrorView {
        match *self {
            ConfigError::NoTransport => ConfigErrorView::NoTransport,
            ConfigError::EmptySecret => ConfigErrorView::EmptySecret,
            ConfigError::DuplicateUser(name) => ConfigErrorView::DuplicateUser(name@),
            ConfigError::BadPorts { entry, user, cause } => ConfigErrorView::BadPorts {
                entry: entry@,
                user: user@,
            },
        }
    }
}

impl ConfigErrorView {
    /// What is said of the error, where the entry and the user are given in quotes.
    pub open spec fn text_with(self, entry: Seq<char>, user: Seq<char>) -> Seq<char> {
        match self {
            ConfigErrorView::NoTransport => {
                "at least one transport ([transports.tcp], [transports.quic], or [transports.wss]) must be present and enabled"@
            },
            ConfigErrorView::EmptySecret => "security.server_secret must not be empty"@,
            ConfigErrorView::DuplicateUser(_) => "duplicate user name: "@ + user,
            ConfigErrorView::BadPorts { .. } => "invalid allow_remote_ports entry "@ + entry
                + " for user "@ + user,
        }
    }

    /// The entry that is to blame, if any.
    pub open spec fn entry(self) -> Seq<char> {
        match self {
            ConfigErrorView::BadPorts { entry, .. } => entry,
            _ => Seq::empty(),
        }
    }

    /// The user whom the error concerns, if any.
    pub open spec fn user(self) -> Seq<char> {
        match self {
            ConfigErrorView::DuplicateUser(name) => name,
            ConfigErrorView::BadPorts { user, .. } => user,
            _ => Seq::empty(),
        }
    }

    /// What is said of the error.
    pub open spec fn text(self) -> Seq<char> {
        self.text_with(text::quoted_text(self.entry()), text::quoted_text(self.user()))
    }
}

impl ConfigError {
    /// What is said of the error, where the entry and the user are given in quotes.
    pub fn message_with(&self, entry: &str, user: &str) -> (s: String)
        ensures
            s@ == self@.text_with(entry@, user@),
            s@ == match *self {
                ConfigError::NoTransport => {
                    "at least one transport ([transports.tcp], [transports.quic], or [transports.wss]) must be present and enabled"@
                },
                ConfigError::EmptySecret => "security.server_secret must not be empty"@,
                ConfigError::DuplicateUser(_) => "duplicate user name: "@ + user@,
                ConfigError::BadPorts { .. } => "invalid allow_remote_ports entry "@ + entry@
                    + " for user "@ + user@,
            },
    {
        match self {
            ConfigError::NoTransport => {
                "at least one transport ([transports.tcp], [transports.quic], or [transports.wss]) must be present and enabled".to_owned()
            },
            ConfigError::EmptySecret => "security.server_secret must not be empty".to_owned(),
            ConfigError::DuplicateUser(_) => {
                let mut s = "duplicate user name: ".to_owned();
                s.append(user);
                s
            },
            ConfigError::BadPorts { .. } => {
                let mut s = "invalid allow_remote_ports entry ".to_owned();
                s.append(entry);
                s.append(" for user ");
                s.append(user);
                s
            },
        }
    }

    /// What is said of the error. The cause of a bad port entry has a message of
    /// its own.
    pub fn message(&self) -> (s: String)
        ensures
            s@ == self@.text(),
            self matches ConfigError::DuplicateUser(name) ==> s@ == "duplicate user name: "@
                + text::quoted_text(name@),
            self matches ConfigError::BadPorts { entry, user, .. } ==> s@
                == "invalid allow_remote_ports entry "@ + text::quoted_text(entry@) + " for user "@
                + text::quoted_text(user@),
    {
        let (entry, user) = match self {
            ConfigError::DuplicateUser(name) => ("", name.as_str()),
            ConfigError::BadPorts { entry, user, .. } => (entry.as_str(), user.as_str()),
            _ => ("", ""),
        };
        proof {
            reveal_strlit("");
            assert(""@ =~= Seq::<char>::empty());
        }
        self.message_with(quoted(entry).as_str(), quoted(user).as_str())
    }
}

/// The first of `entries` that is not a port range.
pub open spec fn first_bad_entry(entries: Seq<String>) -> Option<Seq<char>>
    decreases entries.len(),
{
    if entries.len() == 0 {
        None
    } else if !(range_of(entries[0]@) is Range) {
        Some(entries[0]@)
    } else {
        first_bad_entry(entries.skip(1))
    }
}

/// A list is in order exactly if each of its entries is a port range; otherwise
/// the entry that is reported is the first that is none.
pub proof fn bad_entries_are_no_ranges(entries: Seq<String>)
    ensures
        first_bad_entry(entries) is None <==> forall|i: int|
            0 <= i < entries.len() ==> range_of(#[trigger] entries[i]@) is Range,
        first_bad_entry(entries) is Some ==> exists|i: int|
            0 <= i < entries.len() && !(range_of(#[trigger] entries[i]@) is Range)
                && first_bad_entry(entries) == Some(entries[i]@) && forall|j: int|
                0 <= j < i ==> range_of(#[trigger] entries[j]@) is Range,
    decreases entries.len(),
{
    if entries.len() > 0 {
        let rest = entries.skip(1);
        bad_entries_are_no_ranges(rest);
        if range_of(entries[0]@) is Range {
            if first_bad_entry(rest) is Some {
                let i = choose|i: int|
                    0 <= i < rest.len() && !(range_of(#[trigger] rest[i]@) is Range)
                        && first_bad_entry(rest) == Some(rest[i]@) && forall|j: int|
                        0 <= j < i ==> range_of(#[trigger] rest[j]@) is Range;
                assert(entries[i + 1] == rest[i]);
                assert forall|j: int| 0 <= j < i + 1 implies range_of(
                    #[trigger] entries[j]@,
                ) is Range by {
                    if j > 0 {
                        assert(rest[j - 1] == entries[j]);
                    }
                }
            } else {
                assert forall|j: int| 0 <= j < entries.len() implies range_of(
                    #[trigger] entries[j]@,
                ) is Range by {
                    if j > 0 {
                        assert(rest[j - 1] == entries[j]);
                    }
                }
            }
        }
    }
}

/// A configuration is accepted exactly if some transport is enabled, the secret is
/// not empty, no two users have one name, and every port entry is a range.
/// Otherwise the error says which of these fails first, and of whom.
pub proof fn configs_are_accepted_if_complete(cfg: ServerConfig)
    ensures
        ({
            let on = (cfg.transports.tcp is Some && cfg.transports.tcp->0.enabled) || (
            cfg.transports.quic is Some && cfg.transports.quic->0.enabled) || (
            cfg.transports.wss is Some && cfg.transports.wss->0.enabled);
            let secret = cfg.security.server_secret@.len() > 0;
            let distinct = forall|i: int, j: int|
                0 <= i < j < cfg.users@.len() ==> (#[trigger] cfg.users@[i]).name@ != (
                #[trigger] cfg.users@[j]).name@;
            let ranges = forall|i: int, k: int|
                0 <= i < cfg.users@.len() && 0 <= k < cfg.users@[i].allow_remote_ports@.len()
                    ==> range_of((#[trigger] cfg.users@[i].allow_remote_ports@[k])@) is Range;
            &&& objection(cfg) is None <==> on && secret && distinct && ranges
            &&& objection(cfg) == Some(ConfigErrorView::NoTransport) <==> !on
            &&& objection(cfg) == Some(ConfigErrorView::EmptySecret) <==> on && !secret
            &&& (objection(cfg) is Some && objection(cfg)->0 is DuplicateUser) <==> on && secret
                && !distinct
        }),
        objection(cfg) matches Some(ConfigErrorView::DuplicateUser(name)) ==> exists|
            i: int,
            j: int,
        |
            0 <= i < j < cfg.users@.len() && (#[trigger] cfg.users@[i]).name@ == name && (
            #[trigger] cfg.users@[j]).name@ == name,
        objection(cfg) matches Some(ConfigErrorView::BadPorts { entry, user }) ==> exists|
            i: int,
            k: int,
        |
            0 <= i < cfg.users@.len() && 0 <= k < cfg.users@[i].allow_remote_ports@.len() && (
            #[trigger] cfg.users@[i].allow_remote_ports@[k])@ == entry && cfg.users@[i].name@
                == user && !(range_of(entry) is Range),
{
    let names = user_names(cfg.users@);
    text::lemma_first_repeated(names);
    let at = text::first_repeated(names) as int;
    if at < names.len() {
        let j = choose|j: int| 0 <= j < at && #[trigger] names[j] == names[at];
        assert(cfg.users@[j].name@ == cfg.users@[at].name@);
    } else {
        assert forall|i: int, j: int| 0 <= i < j < cfg.users@.len() implies (
        #[trigger] cfg.users@[i]).name@ != (#[trigger] cfg.users@[j]).name@ by {
            assert(!text::repeats(names, j));
            assert(names[i] != names[j]);
        }
    }
    lemma_first_bad_user(cfg.users@);
}

proof fn lemma_first_bad_user(users: Seq<User>)
    ensures
        first_bad_user(users) is None <==> forall|i: int, k: int|
            0 <= i < users.len() && 0 <= k < users[i].allow_remote_ports@.len() ==> range_of(
                (#[trigger] users[i].allow_remote_ports@[k])@,
            ) is Range,
        first_bad_user(users) matches Some((entry, name)) ==> exists|i: int, k: int|
            0 <= i < users.len() && 0 <= k < users[i].allow_remote_ports@.len() && (
            #[trigger] users[i].allow_remote_ports@[k])@ == entry && users[i].name@ == name && !(
            range_of(entry) is Range),
    decreases users.len(),
{
    if users.len() > 0 {
        let rest = users.skip(1);
        let own = users[0].allow_remote_ports@;
        lemma_first_bad_user(rest);
        bad_entries_are_no_ranges(own);
        if first_bad_entry(own) is Some {
            let k = choose|k: int|
                0 <= k < own.len() && !(range_of(#[trigger] own[k]@) is Range) && first_bad_entry(
                    own,
                ) == Some(own[k]@) && forall|j: int|
                    0 <= j < k ==> range_of(#[trigger] own[j]@) is Range;
            assert(users[0].allow_remote_ports@[k] == own[k]);
        } else if let Some((entry, name)) = first_bad_user(rest) {
            let (i, k) = choose|i: int, k: int|
                0 <= i < rest.len() && 0 <= k < rest[i].allow_remote_ports@.len() && (
                #[trigger] rest[i].allow_remote_ports@[k])@ == entry && rest[i].name@ == name && !(
                range_of(entry) is Range);
            assert(users[i + 1] == rest[i]);
            assert(users[i + 1].allow_remote_ports@[k]@ == entry);
        } else {
            assert forall|i: int, k: int|
                0 <= i < users.len() && 0 <= k
                    < users[i].allow_remote_ports@.len() implies range_of(
                (#[trigger] users[i].allow_remote_ports@[k])@,
            ) is Range by {
                if i > 0 {
                    assert(rest[i - 1] == users[i]);
                    assert(range_of(rest[i - 1].allow_remote_ports@[k]@) is Range);
                } else {
                    assert(range_of(own[k]@) is Range);
                }
            }
        }
    }
}

/// The first user with an entry that is not a port range: that entry and the
/// user's name.
pub open spec fn first_bad_user(users: Seq<User>) -> Option<(Seq<char>, Seq<char>)>
    decreases users.len(),
{
    if users.len() == 0 {
        None
    } else if let Some(entry) = first_bad_entry(users[0].allow_remote_ports@) {
        Some((entry, users[0].name@))
    } else {
        first_bad_user(users.skip(1))
    }
}

/// Whether some transport is present and enabled.
pub open spec fn any_enabled(t: Transports) -> bool {
    t.on(TransportKind::Tcp) || t.on(TransportKind::Quic) || t.on(TransportKind::Wss)
}

/// The first thing that is wrong with a configuration, in the order in which the
/// rules apply.
pub open spec fn objection(cfg: ServerConfig) -> Option<ConfigErrorView> {
    let names = user_names(cfg.users@);
    if !any_enabled(cfg.transports) {
        Some(ConfigErrorView::NoTransport)
    } else if cfg.security.server_secret@.len() == 0 {
        Some(ConfigErrorView::EmptySecret)
    } else if text::first_repeated(names) < names.len() {
        Some(ConfigErrorView::DuplicateUser(names[text::first_repeated(names) as int]))
    } else if let Some((entry, user)) = first_bad_user(cfg.users@) {
        Some(ConfigErrorView::BadPorts { entry, user })
    } else {
        None
    }
}

/// Finds the first of `entries` that is not a port range.
fn find_bad_entry(entries: &Vec<String>) -> (r: Option<(usize, PortRangeError)>)
    ensures
        r is None <==> first_bad_entry(entries@) is None,
        r matches Some((i, cause)) ==> i < entries@.len() && first_bad_entry(entries@) == Some(
            entries@[i as int]@,
        ) && range_of(entries@[i as int]@) == cause@,
{
    let mut i: usize = 0;
    assert(entries@.skip(0) =~= entries@);
    while i < entries.len()
        invariant
            i <= entries@.len(),
            first_bad_entry(entries@.skip(i as int)) == first_bad_entry(entries@),
        decreases entries@.len() - i,
    {
        match parse_port_range(entries[i].as_str()) {
            Ok(_) => {},
            Err(cause) => return Some((i, cause)),
        }
        assert(entries@.skip(i as int).skip(1) =~= entries@.skip(i + 1));
        i += 1;
    }
    None
}

/// Validates a configuration, reporting the first rule it breaks.
pub fn validate(cfg: &ServerConfig) -> (r: Result<(), ConfigError>)
    ensures
        r is Ok <==> objection(*cfg) is None,
        r matches Err(e) ==> objection(*cfg) == Some(e@),
        r matches Err(ConfigError::BadPorts { entry, user, cause }) ==> range_of(entry@) == cause@,
        r matches Err(ConfigError::NoTransport) <==> !((cfg.transports.tcp is Some
            && cfg.transports.tcp->0.enabled) || (cfg.transports.quic is Some
            && cfg.transports.quic->0.enabled) || (cfg.transports.wss is Some
            && cfg.transports.wss->0.enabled)),
        r matches Err(ConfigError::EmptySecret) ==> cfg.security.server_secret@.len() == 0,
        r matches Err(ConfigError::DuplicateUser(name)) ==> exists|i: int, j: int|
            0 <= i < j < cfg.users@.len() && (#[trigger] cfg.users@[i]).name@ == name@ && (
            #[trigger] cfg.users@[j]).name@ == name@,
        r matches Err(ConfigError::BadPorts { entry, user, cause }) ==> exists|i: int, k: int|
            0 <= i < cfg.users@.len() && 0 <= k < cfg.users@[i].allow_remote_ports@.len() && (
            #[trigger] cfg.users@[i].allow_remote_ports@[k])@ == entry@ && cfg.users@[i].name@
                == user@ && !(range_of(entry@) is Range),
        r is Ok ==> {
            &&& cfg.security.server_secret@.len() > 0
            &&& forall|i: int, j: int|
                0 <= i < j < cfg.users@.len() ==> (#[trigger] cfg.users@[i]).name@ != (
                #[trigger] cfg.users@[j]).name@
            &&& forall|i: int, k: int|
                0 <= i < cfg.users@.len() && 0 <= k < cfg.users@[i].allow_remote_ports@.len()
                    ==> range_of((#[trigger] cfg.users@[i].allow_remote_ports@[k])@) is Range
        },
{
    proof {
        configs_are_accepted_if_complete(*cfg);
    }
    // At least one transport must be present and enabled.
    let enabled = cfg.transports.is_enabled(TransportKind::Tcp) || cfg.transports.is_enabled(
        TransportKind::Quic,
    ) || cfg.transports.is_enabled(TransportKind::Wss);
    if !enabled {
        return Err(ConfigError::NoTransport);
    }

    // server_secret must be non-empty.
    if cfg.security.server_secret.as_str().is_empty() {
        return Err(ConfigError::EmptySecret);
    }

    // User names must be unique.
    let mut names: Vec<&str> = Vec::new();
    let mut k: usize = 0;
    while k < cfg.users.len()
        invariant
            k <= cfg.users@.len(),
            names@.len() == k,
            forall|j: int| 0 <= j < k ==> names@[j]@ == #[trigger] cfg.users@[j].name@,
        decreases cfg.users@.len() - k,
    {
        names.push(cfg.users[k].name.as_str());
        k += 1;
    }
    assert(text::strs(names@) =~= user_names(cfg.users@));
    let repeat: usize = first_repeat(&names);
    if repeat < names.len() {
        return Err(ConfigError::DuplicateUser(cfg.users[repeat].name.clone()));
    }

    // Validate allow_remote_ports entries for every user.
    let mut i: usize = 0;
    assert(cfg.users@.skip(0) =~= cfg.users@);
    while i < cfg.users.len()
        invariant
            i <= cfg.users@.len(),
            any_enabled(cfg.transports),
            cfg.security.server_secret@.len() > 0,
            text::first_repeated(user_names(cfg.users@)) >= cfg.users@.len(),
            first_bad_user(cfg.users@.skip(i as int)) == first_bad_user(cfg.users@),
        decreases cfg.users@.len() - i,
    {
        let user = &cfg.users[i];
        if let Some((bad, cause)) = find_bad_entry(&user.allow_remote_ports) {
            return Err(
                ConfigError::BadPorts {
                    entry: user.allow_remote_ports[bad].clone(),
                    user: user.name.clone(),
                    cause,
                },
            );
        }
        assert(cfg.users@.skip(i as int).skip(1) =~= cfg.users@.skip(i + 1));
        i += 1;
    }
    Ok(())
}

/// In a configuration that is accepted some transport is on, a user is known by
/// the name, and every port entry is a range.
pub proof fn accepted_configs_are_complete(cfg: ServerConfig)
    requires
        objection(cfg) is None,
    ensures
        any_enabled(cfg.transports),
        forall|i: int, j: int|
            0 <= i < j < cfg.users@.len() ==> #[trigger] cfg.users@[i].name@
                != #[trigger] cfg.users@[j].name@,
        forall|i: int, k: int|
            0 <= i < cfg.users@.len() && 0 <= k < cfg.users@[i].allow_remote_ports@.len()
                ==> range_of(#[trigger] cfg.users@[i].allow_remote_ports@[k]@) is Range,
{
    let names = user_names(cfg.users@);
    text::lemma_first_repeated(names);
    assert forall|i: int, j: int| 0 <= i < j < cfg.users@.len() implies #[trigger] cfg.users@[i].name@
        != #[trigger] cfg.users@[j].name@ by {
        assert(!text::repeats(names, j));
        assert(names[i] == cfg.users@[i].name@);
        assert(names[j] == cfg.users@[j].name@);
    }
    lemma_no_bad_user(cfg.users@);
}

proof fn lemma_no_bad_entry(entries: Seq<String>)
    requires
        first_bad_entry(entries) is None,
    ensures
        forall|k: int| 0 <= k < entries.len() ==> range_of(#[trigger] entries[k]@) is Range,
    decreases entries.len(),
{
    if entries.len() > 0 {
        lemma_no_bad_entry(entries.skip(1));
        assert forall|k: int| 0 <= k < entries.len() implies range_of(
            #[trigger] entries[k]@,
        ) is Range by {
            if k > 0 {
                assert(entries.skip(1)[k - 1] == entries[k]);
            }
        }
    }
}

proof fn lemma_no_bad_user(users: Seq<User>)
    requires
        first_bad_user(users) is None,
    ensures
        forall|i: int, k: int|
            0 <= i < users.len() && 0 <= k < users[i].allow_remote_ports@.len() ==> range_of(
                #[trigger] users[i].allow_remote_ports@[k]@,
            ) is Range,
    decreases users.len(),
{
    if users.len() > 0 {
        lemma_no_bad_entry(users[0].allow_remote_ports@);
        lemma_no_bad_user(users.skip(1));
        assert forall|i: int, k: int|
            0 <= i < users.len() && 0 <= k < users[i].allow_remote_ports@.len() implies range_of(
            #[trigger] users[i].allow_remote_ports@[k]@,
        ) is Range by {
            if i > 0 {
                assert(users.skip(1)[i - 1] == users[i]);
            }
        }
    }
}

} // verus!
