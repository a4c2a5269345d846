//! Live metrics and traffic history powering the dashboard.
//!
//! [`Metrics`] is a registry: tunnels register on connect, proxies register on
//! `RegisterProxy`, and a [`CountingStream`] bumps per-proxy byte counters as
//! traffic flows. A background sampler snapshots cumulative totals into a capped
//! history for the dashboard's charts.

use std::collections::VecDeque;

use vstd::prelude::*;

use crate::types::ProxyKind;

verus! {

/// How many history samples to keep (≈5.5h at one sample per 10s).
pub const HISTORY_CAP: usize = 2048;

/// Nanoseconds in a second.
pub const NANOS_PER_SEC: u64 = 1_000_000_000;

// ---------------------------------------------------------------------------
// Counters
// ---------------------------------------------------------------------------

/// Byte and connection counters for one registered proxy.
#[derive(Debug, Clone, Copy, PartialEq, Eq, Structural)]
pub struct Counters {
    pub bytes_in: u64,
    pub bytes_out: u64,
    pub conns: u64,
    pub active: u64,
}

impl Default for Counters {
    fn default() -> (c: Self)
        ensures
            c == Counters::zero(),
            c.bytes_in == 0 && c.bytes_out == 0 && c.conns == 0 && c.active == 0,
    {
        Counters { bytes_in: 0, bytes_out: 0, conns: 0, active: 0 }
    }
}

impl Counters {
    /// Counters that have counted nothing yet.
    pub open spec fn zero() -> Counters {
        Counters { bytes_in: 0, bytes_out: 0, conns: 0, active: 0 }
    }

    /// The counters once one more connection has come.
    pub open spec fn opened(self) -> Counters {
        Counters {
            conns: self.conns.wrapping_add(1),
            active: self.active.wrapping_add(1),
            ..self
        }
    }

    /// The counters once one active connection has gone.
    pub open spec fn closed(self) -> Counters {
        Counters { active: self.active.wrapping_sub(1), ..self }
    }

    /// Records `n` bytes flowing in (from the public side). The counter wraps.
    pub fn add_in(&mut self, n: u64)
        ensures
            *final(self) == (Counters {
                bytes_in: old(self).bytes_in.wrapping_add(n),
                ..*old(self)
            }),
    {
        self.bytes_in = self.bytes_in.wrapping_add(n);
    }

    /// Records `n` bytes flowing out (to the public side). The counter wraps.
    pub fn add_out(&mut self, n: u64)
        ensures
            *final(self) == (Counters {
                bytes_out: old(self).bytes_out.wrapping_add(n),
                ..*old(self)
            }),
    {
        self.bytes_out = self.bytes_out.wrapping_add(n);
    }
}

/// Counts one active connection on a proxy from [`ConnGuard::new`] until
/// [`ConnGuard::release`].
#[derive(Debug)]
pub struct ConnGuard;

impl ConnGuard {
    /// Counts a connection, and counts it as active.
    pub fn new(counters: &mut Counters) -> (guard: ConnGuard)
        ensures
            *final(counters) == old(counters).opened(),
            final(counters).conns == old(counters).conns.wrapping_add(1),
            final(counters).active == old(counters).active.wrapping_add(1),
            final(counters).bytes_in == old(counters).bytes_in,
            final(counters).bytes_out == old(counters).bytes_out,
    {
        counters.conns = counters.conns.wrapping_add(1);
        counters.active = counters.active.wrapping_add(1);
        ConnGuard
    }

    /// Stops counting the connection as active.
    pub fn release(self, counters: &mut Counters)
        ensures
            *final(counters) == old(counters).closed(),
            final(counters).conns == old(counters).conns,
            final(counters).active == old(counters).active.wrapping_sub(1),
            final(counters).bytes_in == old(counters).bytes_in,
            final(counters).bytes_out == old(counters).bytes_out,
    {
        counters.active = counters.active.wrapping_sub(1);
    }
}

/// A connection that has come and gone is counted once and leaves the number of
/// active connections as it was, whatever happened to the other counters in
/// between.
pub proof fn connections_balance(before: Counters, between: Counters)
    requires
        between.conns == before.opened().conns,
        between.active == before.opened().active,
    ensures
        between.closed().conns == before.conns.wrapping_add(1),
        between.closed().active == before.active,
        between.closed().bytes_in == between.bytes_in,
        between.closed().bytes_out == between.bytes_out,
{
}

/// Which proxy of which tunnel shows the counters.
#[derive(Debug, Clone, Copy, PartialEq, Eq, Structural)]
pub struct ProxyHandle {
    /// The id of the tunnel.
    pub tunnel: u64,
    /// The position of the proxy in the tunnel.
    pub index: usize,
}

/// The counters that are handed out for a registered proxy. The one who has them
/// counts into them, and [`Metrics::publish`] shows them.
#[derive(Debug, Clone, Copy, PartialEq, Eq, Structural)]
pub struct ProxyCounters {
    /// Where they are shown; `None` if the tunnel was not connected when the proxy
    /// was registered, and nothing shows them.
    pub handle: Option<ProxyHandle>,
    pub counters: Counters,
}

/// Wraps a byte stream, counting bytes read (`bytes_in`) and written
/// (`bytes_out`) into counters, which are shared in the form `C`.
#[derive(Debug)]
pub struct CountingStream<S, C> {
    pub inner: S,
    pub counters: C,
}

impl<S, C> CountingStream<S, C> {
    pub fn new(inner: S, counters: C) -> (s: CountingStream<S, C>)
        ensures
            s.inner == inner,
            s.counters == counters,
    {
        CountingStream { inner, counters }
    }

    /// Counts a read that filled a buffer from `before` to `after` bytes.
    pub fn count_read(counters: &mut Counters, before: usize, after: usize)
        requires
            before <= after,
        ensures
            *final(counters) == (Counters {
                bytes_in: old(counters).bytes_in.wrapping_add((after - before) as u64),
                ..*old(counters)
            }),
    {
        counters.add_in((after - before) as u64);
    }

    /// Counts a write that the stream took `n` bytes of.
    pub fn count_write(counters: &mut Counters, n: usize)
        ensures
            *final(counters) == (Counters {
                bytes_out: old(counters).bytes_out.wrapping_add(n as u64),
                ..*old(counters)
            }),
    {
        counters.add_out(n as u64);
    }
}

// ---------------------------------------------------------------------------
// The registry
// ---------------------------------------------------------------------------

/// A registered proxy.
#[derive(Debug)]
pub struct Proxy {
    pub name: String,
    pub kind: ProxyKind,
    pub remote_port: u16,
    pub counters: Counters,
}

/// A connected tunnel.
#[derive(Debug)]
pub struct Tunnel {
    pub id: u64,
    pub user: String,
    pub transport: &'static str,
    pub peer: String,
    /// When it connected, in nanoseconds on a monotonic clock.
    pub since: u64,
    pub proxies: Vec<Proxy>,
}

/// One traffic-history data point.
#[derive(Debug, Clone, Copy, PartialEq, Eq, Structural)]
pub struct Sample {
    /// Unix timestamp (seconds).
    pub t: u64,
    /// Cumulative bytes since the history began.
    pub total_in: u64,
    pub total_out: u64,
}

/// View of a proxy for the dashboard API.
#[derive(Debug)]
pub struct ProxyView {
    pub name: String,
    pub kind: String,
    pub remote_port: u16,
    pub bytes_in: u64,
    pub bytes_out: u64,
    pub conns: u64,
    pub active: u64,
}

/// View of a tunnel for the dashboard API.
#[derive(Debug)]
pub struct TunnelView {
    pub id: u64,
    pub user: String,
    pub transport: String,
    pub peer: String,
    pub uptime_secs: u64,
    pub proxies: Vec<ProxyView>,
}

/// The metrics registry.
#[derive(Debug)]
pub struct Metrics {
    next_id: u64,
    /// In the order of their ids.
    tunnels: Vec<Tunnel>,
    /// Bytes from tunnels that have since disconnected, and from earlier runs, so
    /// cumulative totals stay monotonic.
    retired_in: u64,
    retired_out: u64,
    history: VecDeque<Sample>,
}

/// A [`Proxy`] by its values.
pub struct ProxyState {
    pub name: Seq<char>,
    pub kind: ProxyKind,
    pub remote_port: u16,
    pub counters: Counters,
}

/// A [`Tunnel`] by its values.
#[verifier::ext_equal]
pub struct TunnelState {
    pub id: u64,
    pub user: Seq<char>,
    pub transport: Seq<char>,
    pub peer: Seq<char>,
    pub since: u64,
    pub proxies: Seq<ProxyState>,
}

/// A [`Metrics`] by its values.
#[verifier::ext_equal]
pub struct Registry {
    pub next_id: u64,
    pub tunnels: Seq<TunnelState>,
    pub retired_in: u64,
    pub retired_out: u64,
    pub history: Seq<Sample>,
}

impl View for Proxy {
    type V = ProxyState;

    open spec fn view(&self) -> ProxyState {
        ProxyState {
            name: self.name@,
            kind: self.kind,
            remote_port: self.remote_port,
            counters: self.counters,
        }
    }
}

impl View for Tunnel {
    type V = TunnelState;

    open spec fn view(&self) -> TunnelState {
        TunnelState {
            id: self.id,
            user: self.user@,
            transport: self.transport@,
            peer: self.peer@,
            since: self.since,
            proxies: Seq::new(self.proxies@.len(), |i: int| self.proxies@[i]@),
        }
    }
}

impl View for Metrics {
    type V = Registry;

    closed spec fn view(&self) -> Registry {
        Registry {
            next_id: self.next_id,
            tunnels: Seq::new(self.tunnels@.len(), |i: int| self.tunnels@[i]@),
            retired_in: self.retired_in,
            retired_out: self.retired_out,
            history: self.history@,
        }
    }
}

/// The bytes that have come in through `proxies`.
pub open spec fn proxies_in(proxies: Seq<ProxyState>) -> nat
    decreases proxies.len(),
{
    if proxies.len() == 0 {
        0
    } else {
        proxies_in(proxies.drop_last()) + proxies.last().counters.bytes_in as nat
    }
}

/// The bytes that have gone out through `proxies`.
pub open spec fn proxies_out(proxies: Seq<ProxyState>) -> nat
    decreases proxies.len(),
{
    if proxies.len() == 0 {
        0
    } else {
        proxies_out(proxies.drop_last()) + proxies.last().counters.bytes_out as nat
    }
}

/// The bytes that have come in through `tunnels`.
pub open spec fn tunnels_in(tunnels: Seq<TunnelState>) -> nat
    decreases tunnels.len(),
{
    if tunnels.len() == 0 {
        0
    } else {
        tunnels_in(tunnels.drop_last()) + proxies_in(tunnels.last().proxies)
    }
}

/// The bytes that have gone out through `tunnels`.
pub open spec fn tunnels_out(tunnels: Seq<TunnelState>) -> nat
    decreases tunnels.len(),
{
    if tunnels.len() == 0 {
        0
    } else {
        tunnels_out(tunnels.drop_last()) + proxies_out(tunnels.last().proxies)
    }
}

/// Whether the cumulative totals never fall along a history.
pub open spec fn never_falls(history: Seq<Sample>) -> bool {
    forall|i: int, j: int|
        0 <= i < j < history.len() ==> (#[trigger] history[i]).total_in <= (
        #[trigger] history[j]).total_in && history[i].total_out <= history[j].total_out
}

impl Registry {
    /// The registry that a run starts with when earlier runs left `history`: no
    /// tunnels, and totals that go on from those of the newest sample.
    pub open spec fn resumed(history: Seq<Sample>) -> Registry {
        Registry {
            next_id: 1,
            tunnels: Seq::empty(),
            retired_in: if history.len() > 0 {
                history.last().total_in
            } else {
                0
            },
            retired_out: if history.len() > 0 {
                history.last().total_out
            } else {
                0
            },
            history,
        }
    }

    /// Whether the totals have never fallen: not along the history, nor since its
    /// newest sample.
    pub open spec fn monotonic(self) -> bool {
        &&& never_falls(self.history)
        &&& self.history.len() > 0 ==> {
            &&& self.history.last().total_in <= self.total_in()
            &&& self.history.last().total_out <= self.total_out()
        }
    }

    /// Tunnels stand in the order of their ids, and ids are never reused.
    pub open spec fn wf(self) -> bool {
        &&& self.next_id >= 1
        &&& forall|i: int|
            0 <= i < self.tunnels.len() ==> 1 <= (#[trigger] self.tunnels[i]).id < self.next_id
        &&& forall|i: int, j: int|
            0 <= i < j < self.tunnels.len() ==> (#[trigger] self.tunnels[i]).id < (
            #[trigger] self.tunnels[j]).id
    }

    /// All bytes that ever came in, retired and live.
    pub open spec fn total_in(self) -> nat {
        self.retired_in as nat + tunnels_in(self.tunnels)
    }

    /// All bytes that ever went out, retired and live.
    pub open spec fn total_out(self) -> nat {
        self.retired_out as nat + tunnels_out(self.tunnels)
    }

    /// Whether the totals are numbers a counter can hold.
    pub open spec fn totals_fit(self) -> bool {
        self.total_in() <= u64::MAX && self.total_out() <= u64::MAX
    }

    /// Whether the retired totals can take in the traffic of the tunnel with that
    /// id.
    pub open spec fn retirable(self, id: u64) -> bool {
        let tunnel = self.tunnels[self.position(id) as int];
        &&& self.retired_in + proxies_in(tunnel.proxies) <= u64::MAX
        &&& self.retired_out + proxies_out(tunnel.proxies) <= u64::MAX
    }

    /// The first position at or after `from` of the tunnel with that id, or the
    /// number of tunnels.
    pub open spec fn position_from(self, id: u64, from: nat) -> nat
        decreases self.tunnels.len() - from,
    {
        if from >= self.tunnels.len() {
            self.tunnels.len()
        } else if self.tunnels[from as int].id == id {
            from
        } else {
            self.position_from(id, from + 1)
        }
    }

    /// The position of the tunnel with that id, or the number of tunnels.
    pub open spec fn position(self, id: u64) -> nat {
        self.position_from(id, 0)
    }

    /// Whether a tunnel with that id is connected.
    pub open spec fn connected(self, id: u64) -> bool {
        self.position(id) < self.tunnels.len()
    }

    /// Whether there is such a proxy on a tunnel that is connected.
    pub open spec fn has(self, h: ProxyHandle) -> bool {
        self.connected(h.tunnel) && h.index < self.tunnels[self.position(
            h.tunnel,
        ) as int].proxies.len()
    }

    /// The counters of a proxy.
    pub open spec fn counters(self, h: ProxyHandle) -> Counters {
        self.tunnels[self.position(h.tunnel) as int].proxies[h.index as int].counters
    }

    /// The registry with other counters for a proxy.
    pub open spec fn with_counters(self, h: ProxyHandle, counters: Counters) -> Registry {
        let at = self.position(h.tunnel) as int;
        let tunnel = self.tunnels[at];
        let proxy = ProxyState { counters, ..tunnel.proxies[h.index as int] };
        Registry {
            tunnels: self.tunnels.update(
                at,
                TunnelState { proxies: tunnel.proxies.update(h.index as int, proxy), ..tunnel },
            ),
            ..self
        }
    }
}

impl Registry {
    /// Whether the registry shows the counters `p`: their tunnel is connected.
    pub open spec fn shows(self, p: ProxyCounters) -> bool {
        p.handle matches Some(h) && self.has(h)
    }

    /// The registry once the counters `p` are published: it shows them as long as
    /// the tunnel that they were registered under is connected.
    pub open spec fn published(self, p: ProxyCounters) -> Registry {
        if self.shows(p) {
            self.with_counters(p.handle->0, p.counters)
        } else {
            self
        }
    }
}

proof fn lemma_position(m: Registry, id: u64, from: nat)
    requires
        from <= m.tunnels.len(),
    ensures
        from <= m.position_from(id, from) <= m.tunnels.len(),
        m.position_from(id, from) < m.tunnels.len() ==> m.tunnels[m.position_from(
            id,
            from,
        ) as int].id == id,
        forall|i: int|
            from <= i < m.position_from(id, from) ==> (#[trigger] m.tunnels[i]).id != id,
    decreases m.tunnels.len() - from,
{
    if from < m.tunnels.len() && m.tunnels[from as int].id != id {
        lemma_position(m, id, from + 1);
    }
}

impl Metrics {
    /// Creates the registry with the history that earlier runs left; `None` stands
    /// for one that is missing or cannot be read. The totals go on from the newest
    /// sample.
    pub fn new(loaded: Option<VecDeque<Sample>>) -> (m: Metrics)
        ensures
            m@ == Registry::resumed(
                match loaded {
                    Some(history) => history@,
                    None => Seq::empty(),
                },
            ),
            m@.wf(),
            never_falls(m@.history) ==> m@.monotonic(),
            m@.tunnels.len() == 0,
            loaded is None ==> m@.history.len() == 0,
            loaded matches Some(history) ==> m@.history == history@,
            m@.history.len() == 0 ==> m@.retired_in == 0 && m@.retired_out == 0,
            m@.history.len() > 0 ==> m@.retired_in == m@.history[m@.history.len() - 1].total_in
                && m@.retired_out == m@.history[m@.history.len() - 1].total_out,
    {
        let history = match loaded {
            Some(history) => history,
            None => VecDeque::new(),
        };
        let count: usize = history.len();
        let (retired_in, retired_out) = if count > 0 {
            let newest = history[count - 1];
            (newest.total_in, newest.total_out)
        } else {
            (0, 0)
        };
        let m = Metrics { next_id: 1, tunnels: Vec::new(), retired_in, retired_out, history };
        assert(m@.tunnels =~= Seq::empty());
        m
    }

    /// The position of the tunnel with that id, or the number of tunnels.
    fn find(&self, id: u64) -> (r: usize)
        ensures
            r == self@.position(id),
            r <= self.tunnels@.len(),
    {
        let mut i: usize = 0;
        while i < self.tunnels.len()
            invariant
                i <= self.tunnels@.len(),
                self@.position_from(id, i as nat) == self@.position(id),
            decreases self.tunnels@.len() - i,
        {
            assert(self@.tunnels[i as int] == self.tunnels@[i as int]@);
            if self.tunnels[i].id == id {
                return i;
            }
            i += 1;
        }
        i
    }

    /// Whether there is an id left for another tunnel.
    pub fn ids_left(&self) -> (r: bool)
        ensures
            r == (self@.next_id < u64::MAX),
    {
        self.next_id < u64::MAX
    }

    /// Registers a newly connected tunnel; returns its id.
    pub fn register_tunnel(
        &mut self,
        user: &str,
        transport: &'static str,
        peer: String,
        now: u64,
    ) -> (id: u64)
        requires
            old(self)@.wf(),
            old(self)@.next_id < u64::MAX,
        ensures
            final(self)@.wf(),
            id == old(self)@.next_id,
            final(self)@ == (Registry {
                next_id: (id + 1) as u64,
                tunnels: old(self)@.tunnels.push(
                    TunnelState {
                        id,
                        user: user@,
                        transport: transport@,
                        peer: peer@,
                        since: now,
                        proxies: Seq::empty(),
                    },
                ),
                ..old(self)@
            }),
            old(self)@.monotonic() ==> final(self)@.monotonic(),
    {
        let id: u64 = self.next_id;
        self.next_id = id + 1;
        let tunnel = Tunnel {
            id,
            user: user.to_owned(),
            transport,
            peer,
            since: now,
            proxies: Vec::new(),
        };
        assert(tunnel@.proxies =~= Seq::empty());
        let ghost added = tunnel@;
        self.tunnels.push(tunnel);
        assert(self@.tunnels =~= old(self)@.tunnels.push(added));
        assert(self@.tunnels.drop_last() =~= old(self)@.tunnels);
        id
    }

    /// Registers a proxy under a tunnel; returns its counters. On a tunnel that is
    /// not connected nothing is registered: the counters are handed out all the
    /// same, but nothing shows them.
    pub fn register_proxy(
        &mut self,
        tunnel_id: u64,
        name: &str,
        kind: ProxyKind,
        remote_port: u16,
    ) -> (r: ProxyCounters)
        requires
            old(self)@.wf(),
        ensures
            final(self)@.wf(),
            r.counters == Counters::zero(),
            r.counters.bytes_in == 0 && r.counters.bytes_out == 0 && r.counters.conns == 0
                && r.counters.active == 0,
            r.handle is Some <==> exists|i: int|
                0 <= i < old(self)@.tunnels.len() && (#[trigger] old(self)@.tunnels[i]).id
                    == tunnel_id,
            final(self)@.tunnels.len() == old(self)@.tunnels.len(),
            forall|i: int|
                0 <= i < old(self)@.tunnels.len() ==> {
                    let before = old(self)@.tunnels[i];
                    let after = #[trigger] final(self)@.tunnels[i];
                    let n = before.proxies.len() as int;
                    &&& before.id != tunnel_id ==> after == before
                    &&& before.id == tunnel_id ==> {
                        &&& after.id == before.id
                        &&& after.user == before.user
                        &&& after.transport == before.transport
                        &&& after.peer == before.peer
                        &&& after.since == before.since
                        &&& after.proxies.len() == n + 1
                        &&& after.proxies.take(n) == before.proxies
                        &&& after.proxies[n].name == name@
                        &&& after.proxies[n].kind == kind
                        &&& after.proxies[n].remote_port == remote_port
                        &&& after.proxies[n].counters == r.counters
                        &&& r.handle == Some(ProxyHandle { tunnel: tunnel_id, index: n as usize })
                    }
                },
            r.handle is Some <==> old(self)@.connected(tunnel_id),
            final(self)@.shows(r) <==> old(self)@.connected(tunnel_id),
            final(self)@.shows(r) ==> final(self)@.counters(r.handle->0) == r.counters,
            r.handle is None ==> final(self)@ == old(self)@,
            r.handle matches Some(h) ==> {
                let at = old(self)@.position(tunnel_id) as int;
                let tunnel = old(self)@.tunnels[at];
                &&& h.tunnel == tunnel_id
                &&& h.index == tunnel.proxies.len()
                &&& final(self)@ == (Registry {
                    tunnels: old(self)@.tunnels.update(
                        at,
                        TunnelState {
                            proxies: tunnel.proxies.push(
                                ProxyState {
                                    name: name@,
                                    kind,
                                    remote_port,
                                    counters: Counters::zero(),
                                },
                            ),
                            ..tunnel
                        },
                    ),
                    ..old(self)@
                })
            },
            old(self)@.monotonic() ==> final(self)@.monotonic(),
    {
        let at: usize = self.find(tunnel_id);
        proof {
            tunnels_are_found_by_their_id(self@, tunnel_id);
            lemma_only_one_has_the_id(self@, tunnel_id);
        }
        if at == self.tunnels.len() {
            return ProxyCounters { handle: None, counters: Counters::default() };
        }
        let proxy = Proxy {
            name: name.to_owned(),
            kind,
            remote_port,
            counters: Counters::default(),
        };
        let ghost before = self.tunnels@[at as int]@;
        let ghost added = proxy@;
        let index: usize = self.tunnels[at].proxies.len();
        self.tunnels[at].proxies.push(proxy);
        assert(self.tunnels@[at as int]@.proxies =~= before.proxies.push(added));
        assert(self@.tunnels =~= old(self)@.tunnels.update(
            at as int,
            TunnelState { proxies: before.proxies.push(added), ..before },
        ));
        proof {
            let grown = TunnelState { proxies: before.proxies.push(added), ..before };
            assert(grown.proxies.drop_last() =~= before.proxies);
            lemma_tunnels_update(old(self)@.tunnels, at as int, grown);
            lemma_position(old(self)@, tunnel_id, 0);
            assert(self@.tunnels[at as int].id == tunnel_id);
            ids_identify_tunnels(self@, at as int);
            assert(before.proxies.push(added).take(before.proxies.len() as int)
                =~= before.proxies);
            assert(self.tunnels@[at as int].proxies@.len() == index + 1);
        }
        ProxyCounters {
            handle: Some(ProxyHandle { tunnel: tunnel_id, index }),
            counters: Counters::default(),
        }
    }

    /// Shows the counters `p` from now on, as long as the tunnel that they were
    /// registered under is connected; otherwise nothing shows them.
    pub fn publish(&mut self, p: &ProxyCounters)
        requires
            old(self)@.wf(),
        ensures
            final(self)@.wf(),
            final(self)@ == old(self)@.published(*p),
            final(self)@.next_id == old(self)@.next_id,
            final(self)@.retired_in == old(self)@.retired_in,
            final(self)@.retired_out == old(self)@.retired_out,
            final(self)@.history == old(self)@.history,
            final(self)@.tunnels.len() == old(self)@.tunnels.len(),
            forall|i: int|
                0 <= i < old(self)@.tunnels.len() ==> {
                    let before = old(self)@.tunnels[i];
                    let after = #[trigger] final(self)@.tunnels[i];
                    &&& after.id == before.id
                    &&& after.user == before.user
                    &&& after.transport == before.transport
                    &&& after.peer == before.peer
                    &&& after.since == before.since
                    &&& after.proxies.len() == before.proxies.len()
                },
            forall|i: int, k: int|
                0 <= i < old(self)@.tunnels.len() && 0 <= k < old(
                    self,
                )@.tunnels[i].proxies.len() ==> {
                    let before = old(self)@.tunnels[i].proxies[k];
                    let after = #[trigger] final(self)@.tunnels[i].proxies[k];
                    &&& after.name == before.name
                    &&& after.kind == before.kind
                    &&& after.remote_port == before.remote_port
                    &&& after.counters == if p.handle is Some && p.handle->0.tunnel == old(
                        self,
                    )@.tunnels[i].id && p.handle->0.index == k {
                        p.counters
                    } else {
                        before.counters
                    }
                },
    {
        proof {
            if let Some(h) = p.handle {
                tunnels_are_found_by_their_id(self@, h.tunnel);
                lemma_only_one_has_the_id(self@, h.tunnel);
            }
        }
        let h = match p.handle {
            Some(h) => h,
            None => return,
        };
        let at: usize = self.find(h.tunnel);
        if at == self.tunnels.len() {
            return;
        }
        assert(self@.tunnels[at as int] == self.tunnels@[at as int]@);
        if h.index >= self.tunnels[at].proxies.len() {
            return;
        }
        let ghost before = self.tunnels@[at as int]@;
        let ghost proxy = ProxyState { counters: p.counters, ..before.proxies[h.index as int] };
        self.tunnels[at].proxies[h.index].counters = p.counters;
        assert(self.tunnels@[at as int]@.proxies =~= before.proxies.update(h.index as int, proxy));
        assert(self@.tunnels =~= old(self)@.tunnels.update(
            at as int,
            TunnelState { proxies: before.proxies.update(h.index as int, proxy), ..before },
        ));
    }
}

// ---------------------------------------------------------------------------
// Totals
// ---------------------------------------------------------------------------

proof fn lemma_proxies_prefix(proxies: Seq<ProxyState>, k: int)
    requires
        0 <= k <= proxies.len(),
    ensures
        proxies_in(proxies.take(k)) <= proxies_in(proxies),
        proxies_out(proxies.take(k)) <= proxies_out(proxies),
    decreases proxies.len() - k,
{
    if k == proxies.len() {
        assert(proxies.take(k) =~= proxies);
    } else {
        lemma_proxies_prefix(proxies, k + 1);
        assert(proxies.take(k + 1).drop_last() =~= proxies.take(k));
    }
}

proof fn lemma_tunnels_prefix(tunnels: Seq<TunnelState>, k: int)
    requires
        0 <= k <= tunnels.len(),
    ensures
        tunnels_in(tunnels.take(k)) <= tunnels_in(tunnels),
        tunnels_out(tunnels.take(k)) <= tunnels_out(tunnels),
    decreases tunnels.len() - k,
{
    if k == tunnels.len() {
        assert(tunnels.take(k) =~= tunnels);
    } else {
        lemma_tunnels_prefix(tunnels, k + 1);
        assert(tunnels.take(k + 1).drop_last() =~= tunnels.take(k));
    }
}

proof fn lemma_tunnels_remove(tunnels: Seq<TunnelState>, at: int)
    requires
        0 <= at < tunnels.len(),
    ensures
        tunnels_in(tunnels) == tunnels_in(tunnels.remove(at)) + proxies_in(tunnels[at].proxies),
        tunnels_out(tunnels) == tunnels_out(tunnels.remove(at)) + proxies_out(tunnels[at].proxies),
    decreases tunnels.len(),
{
    if at == tunnels.len() - 1 {
        assert(tunnels.remove(at) =~= tunnels.drop_last());
    } else {
        lemma_tunnels_remove(tunnels.drop_last(), at);
        assert(tunnels.remove(at).drop_last() =~= tunnels.drop_last().remove(at));
        assert(tunnels.remove(at).last() == tunnels.last());
    }
}

proof fn lemma_tunnels_update(tunnels: Seq<TunnelState>, at: int, tunnel: TunnelState)
    requires
        0 <= at < tunnels.len(),
    ensures
        tunnels_in(tunnels.update(at, tunnel)) + proxies_in(tunnels[at].proxies) == tunnels_in(
            tunnels,
        ) + proxies_in(tunnel.proxies),
        tunnels_out(tunnels.update(at, tunnel)) + proxies_out(tunnels[at].proxies) == tunnels_out(
            tunnels,
        ) + proxies_out(tunnel.proxies),
    decreases tunnels.len(),
{
    let after = tunnels.update(at, tunnel);
    if at == tunnels.len() - 1 {
        assert(after.drop_last() =~= tunnels.drop_last());
    } else {
        lemma_tunnels_update(tunnels.drop_last(), at, tunnel);
        assert(after.drop_last() =~= tunnels.drop_last().update(at, tunnel));
        assert(after.last() == tunnels.last());
    }
}

proof fn lemma_proxies_update(proxies: Seq<ProxyState>, at: int, proxy: ProxyState)
    requires
        0 <= at < proxies.len(),
    ensures
        proxies_in(proxies.update(at, proxy)) + proxies[at].counters.bytes_in == proxies_in(proxies)
            + proxy.counters.bytes_in,
        proxies_out(proxies.update(at, proxy)) + proxies[at].counters.bytes_out == proxies_out(
            proxies,
        ) + proxy.counters.bytes_out,
    decreases proxies.len(),
{
    let after = proxies.update(at, proxy);
    if at == proxies.len() - 1 {
        assert(after.drop_last() =~= proxies.drop_last());
    } else {
        lemma_proxies_update(proxies.drop_last(), at, proxy);
        assert(after.drop_last() =~= proxies.drop_last().update(at, proxy));
        assert(after.last() == proxies.last());
    }
}

impl Tunnel {
    /// The bytes that have come in and gone out through the tunnel.
    fn traffic(&self) -> (r: (u64, u64))
        requires
            proxies_in(self@.proxies) <= u64::MAX,
            proxies_out(self@.proxies) <= u64::MAX,
        ensures
            r.0 == proxies_in(self@.proxies),
            r.1 == proxies_out(self@.proxies),
    {
        let ghost all = self@.proxies;
        let mut bytes_in: u64 = 0;
        let mut bytes_out: u64 = 0;
        let mut i: usize = 0;
        while i < self.proxies.len()
            invariant
                i <= self.proxies@.len(),
                all == self@.proxies,
                proxies_in(all) <= u64::MAX,
                proxies_out(all) <= u64::MAX,
                bytes_in == proxies_in(all.take(i as int)),
                bytes_out == proxies_out(all.take(i as int)),
            decreases self.proxies@.len() - i,
        {
            proof {
                lemma_proxies_prefix(all, i + 1);
                assert(all.take(i + 1).drop_last() =~= all.take(i as int));
                assert(all[i as int] == self.proxies@[i as int]@);
            }
            bytes_in = bytes_in + self.proxies[i].counters.bytes_in;
            bytes_out = bytes_out + self.proxies[i].counters.bytes_out;
            i += 1;
        }
        assert(all.take(i as int) =~= all);
        (bytes_in, bytes_out)
    }
}

impl Metrics {
    /// Removes a tunnel, rolling its traffic into the retired totals.
    pub fn unregister_tunnel(&mut self, id: u64)
        requires
            old(self)@.wf(),
            old(self)@.connected(id) ==> old(self)@.retirable(id),
        ensures
            final(self)@.wf(),
            !old(self)@.connected(id) ==> final(self)@ == old(self)@,
            !final(self)@.connected(id),
            old(self)@.connected(id) ==> {
                let at = old(self)@.position(id) as int;
                let tunnel = old(self)@.tunnels[at];
                final(self)@ == (Registry {
                    tunnels: old(self)@.tunnels.remove(at),
                    retired_in: (old(self)@.retired_in + proxies_in(tunnel.proxies)) as u64,
                    retired_out: (old(self)@.retired_out + proxies_out(tunnel.proxies)) as u64,
                    ..old(self)@
                })
            },
            final(self)@.total_in() == old(self)@.total_in(),
            final(self)@.total_out() == old(self)@.total_out(),
            old(self)@.monotonic() ==> final(self)@.monotonic(),
            final(self)@.next_id == old(self)@.next_id,
            final(self)@.history == old(self)@.history,
            forall|i: int|
                0 <= i < final(self)@.tunnels.len() ==> (#[trigger] final(self)@.tunnels[i]).id != id
                    && old(self)@.tunnels.contains(final(self)@.tunnels[i]),
            forall|i: int|
                0 <= i < old(self)@.tunnels.len() && (#[trigger] old(self)@.tunnels[i]).id != id
                    ==> final(self)@.tunnels.contains(old(self)@.tunnels[i]),
    {
        proof {
            tunnels_are_found_by_their_id(self@, id);
            lemma_only_one_has_the_id(self@, id);
        }
        let at: usize = self.find(id);
        if at == self.tunnels.len() {
            return;
        }
        proof {
            lemma_tunnels_remove(self@.tunnels, at as int);
            assert(self@.tunnels[at as int] == self.tunnels@[at as int]@);
        }
        let (bytes_in, bytes_out) = self.tunnels[at].traffic();
        self.retired_in = self.retired_in + bytes_in;
        self.retired_out = self.retired_out + bytes_out;
        let _ = self.tunnels.remove(at);
        assert(self@.tunnels =~= old(self)@.tunnels.remove(at as int));
        proof {
            lemma_position(old(self)@, id, 0);
            lemma_position(self@, id, 0);
            let all = old(self)@.tunnels;
            assert forall|i: int| 0 <= i < self@.tunnels.len() implies (
            #[trigger] self@.tunnels[i]).id != id && all.contains(self@.tunnels[i]) by {
                let k = if i < at {
                    i
                } else {
                    i + 1
                };
                assert(self@.tunnels[i] == all[k]);
            }
            assert forall|i: int| 0 <= i < all.len() && (#[trigger] all[i]).id
                != id implies self@.tunnels.contains(all[i]) by {
                let k = if i < at {
                    i
                } else {
                    i - 1
                };
                assert(self@.tunnels[k] == all[i]);
            }
            let found = self@.position(id) as int;
            if found < self@.tunnels.len() {
                assert(self@.tunnels[found].id == id);
                if found < at {
                    assert(old(self)@.tunnels[found].id < old(self)@.tunnels[at as int].id);
                } else {
                    assert(old(self)@.tunnels[at as int].id < old(self)@.tunnels[found + 1].id);
                }
            }
        }
    }

    /// Cumulative (retired + live) byte totals.
    pub fn totals(&self) -> (r: (u64, u64))
        requires
            self@.totals_fit(),
        ensures
            r.0 == self@.total_in(),
            r.1 == self@.total_out(),
            r.0 == self@.retired_in + tunnels_in(self@.tunnels),
            r.1 == self@.retired_out + tunnels_out(self@.tunnels),
    {
        let ghost all = self@.tunnels;
        let mut total_in: u64 = self.retired_in;
        let mut total_out: u64 = self.retired_out;
        let mut i: usize = 0;
        while i < self.tunnels.len()
            invariant
                i <= self.tunnels@.len(),
                all == self@.tunnels,
                self@.totals_fit(),
                total_in == self@.retired_in + tunnels_in(all.take(i as int)),
                total_out == self@.retired_out + tunnels_out(all.take(i as int)),
            decreases self.tunnels@.len() - i,
        {
            proof {
                lemma_tunnels_prefix(all, i + 1);
                assert(all.take(i + 1).drop_last() =~= all.take(i as int));
                assert(all[i as int] == self.tunnels@[i as int]@);
            }
            let (bytes_in, bytes_out) = self.tunnels[i].traffic();
            total_in = total_in + bytes_in;
            total_out = total_out + bytes_out;
            i += 1;
        }
        assert(all.take(i as int) =~= all);
        (total_in, total_out)
    }

    /// Whether the cumulative totals are numbers a counter can hold.
    pub fn totals_fit(&self) -> (r: bool)
        ensures
            r == self@.totals_fit(),
            r <==> self@.retired_in + tunnels_in(self@.tunnels) <= u64::MAX && self@.retired_out
                + tunnels_out(self@.tunnels) <= u64::MAX,
    {
        let ghost all = self@.tunnels;
        let limit: u128 = u64::MAX as u128;
        let mut total_in: u128 = self.retired_in as u128;
        let mut total_out: u128 = self.retired_out as u128;
        let mut i: usize = 0;
        while i < self.tunnels.len()
            invariant
                i <= self.tunnels@.len(),
                all == self@.tunnels,
                limit == u64::MAX,
                total_in == self@.retired_in + tunnels_in(all.take(i as int)),
                total_out == self@.retired_out + tunnels_out(all.take(i as int)),
                total_in <= limit,
                total_out <= limit,
            decreases self.tunnels@.len() - i,
        {
            proof {
                lemma_tunnels_prefix(all, i + 1);
                assert(all.take(i + 1).drop_last() =~= all.take(i as int));
                assert(all[i as int] == self.tunnels@[i as int]@);
            }
            let ghost proxies = self.tunnels@[i as int]@.proxies;
            let ghost before_in = total_in;
            let ghost before_out = total_out;
            let mut k: usize = 0;
            while k < self.tunnels[i as usize].proxies.len()
                invariant
                    i < self.tunnels@.len(),
                    k <= self.tunnels@[i as int].proxies@.len(),
                    all == self@.tunnels,
                    limit == u64::MAX,
                    proxies == self.tunnels@[i as int]@.proxies,
                    all[i as int].proxies == proxies,
                    tunnels_in(all.take(i + 1)) <= tunnels_in(all),
                    tunnels_out(all.take(i + 1)) <= tunnels_out(all),
                    tunnels_in(all.take(i + 1)) == tunnels_in(all.take(i as int)) + proxies_in(
                        proxies,
                    ),
                    tunnels_out(all.take(i + 1)) == tunnels_out(all.take(i as int)) + proxies_out(
                        proxies,
                    ),
                    before_in == self@.retired_in + tunnels_in(all.take(i as int)),
                    before_out == self@.retired_out + tunnels_out(all.take(i as int)),
                    total_in == before_in + proxies_in(proxies.take(k as int)),
                    total_out == before_out + proxies_out(proxies.take(k as int)),
                    total_in <= limit,
                    total_out <= limit,
                decreases self.tunnels@[i as int].proxies@.len() - k,
            {
                proof {
                    lemma_proxies_prefix(proxies, k + 1);
                    assert(proxies.take(k + 1).drop_last() =~= proxies.take(k as int));
                    assert(proxies[k as int] == self.tunnels@[i as int].proxies@[k as int]@);
                }
                let counters = self.tunnels[i].proxies[k].counters;
                total_in = total_in + counters.bytes_in as u128;
                total_out = total_out + counters.bytes_out as u128;
                if total_in > limit || total_out > limit {
                    return false;
                }
                k += 1;
            }
            assert(proxies.take(k as int) =~= proxies);
            i += 1;
        }
        assert(all.take(i as int) =~= all);
        true
    }
}

// ---------------------------------------------------------------------------
// Snapshots and history
// ---------------------------------------------------------------------------

/// A [`ProxyView`] by its values.
pub struct ProxyReport {
    pub name: Seq<char>,
    pub kind: Seq<char>,
    pub remote_port: u16,
    pub counters: Counters,
}

/// A [`TunnelView`] by its values.
#[verifier::ext_equal]
pub struct TunnelReport {
    pub id: u64,
    pub user: Seq<char>,
    pub transport: Seq<char>,
    pub peer: Seq<char>,
    pub uptime_secs: u64,
    pub proxies: Seq<ProxyReport>,
}

impl View for ProxyView {
    type V = ProxyReport;

    open spec fn view(&self) -> ProxyReport {
        ProxyReport {
            name: self.name@,
            kind: self.kind@,
            remote_port: self.remote_port,
            counters: Counters {
                bytes_in: self.bytes_in,
                bytes_out: self.bytes_out,
                conns: self.conns,
                active: self.active,
            },
        }
    }
}

impl View for TunnelView {
    type V = TunnelReport;

    open spec fn view(&self) -> TunnelReport {
        TunnelReport {
            id: self.id,
            user: self.user@,
            transport: self.transport@,
            peer: self.peer@,
            uptime_secs: self.uptime_secs,
            proxies: Seq::new(self.proxies@.len(), |i: int| self.proxies@[i]@),
        }
    }
}

/// What the dashboard is told of a proxy.
pub open spec fn proxy_report(p: ProxyState) -> ProxyReport {
    ProxyReport {
        name: p.name,
        kind: p.kind.name(),
        remote_port: p.remote_port,
        counters: p.counters,
    }
}

/// What the dashboard is told of a tunnel at the time `now`.
pub open spec fn tunnel_report(t: TunnelState, now: u64) -> TunnelReport {
    TunnelReport {
        id: t.id,
        user: t.user,
        transport: t.transport,
        peer: t.peer,
        uptime_secs: if now >= t.since {
            ((now - t.since) / NANOS_PER_SEC as int) as u64
        } else {
            0
        },
        proxies: Seq::new(t.proxies.len(), |i: int| proxy_report(t.proxies[i])),
    }
}

impl Tunnel {
    /// What the dashboard is told of the tunnel.
    fn report(&self, now: u64) -> (r: TunnelView)
        ensures
            r@ == tunnel_report(self@, now),
            r.id == self@.id,
            r.user@ == self@.user,
            r.transport@ == self@.transport,
            r.peer@ == self@.peer,
            r.uptime_secs == if now >= self@.since {
                (now - self@.since) / 1_000_000_000
            } else {
                0
            },
            r.proxies@.len() == self@.proxies.len(),
            forall|k: int|
                0 <= k < r.proxies@.len() ==> {
                    let row = #[trigger] r.proxies@[k];
                    let proxy = self@.proxies[k];
                    &&& row.name@ == proxy.name
                    &&& row.kind@ == match proxy.kind {
                        ProxyKind::Tcp => "tcp"@,
                        ProxyKind::Udp => "udp"@,
                    }
                    &&& row.remote_port == proxy.remote_port
                    &&& row.bytes_in == proxy.counters.bytes_in
                    &&& row.bytes_out == proxy.counters.bytes_out
                    &&& row.conns == proxy.counters.conns
                    &&& row.active == proxy.counters.active
                },
    {
        let mut proxies: Vec<ProxyView> = Vec::new();
        let mut i: usize = 0;
        while i < self.proxies.len()
            invariant
                i <= self.proxies@.len(),
                proxies@.len() == i,
                forall|k: int|
                    0 <= k < i ==> #[trigger] proxies@[k]@ == proxy_report(self.proxies@[k]@),
                forall|k: int|
                    0 <= k < i ==> {
                        let row = #[trigger] proxies@[k];
                        let proxy = self@.proxies[k];
                        &&& row.name@ == proxy.name
                        &&& row.kind@ == match proxy.kind {
                            ProxyKind::Tcp => "tcp"@,
                            ProxyKind::Udp => "udp"@,
                        }
                        &&& row.remote_port == proxy.remote_port
                        &&& row.bytes_in == proxy.counters.bytes_in
                        &&& row.bytes_out == proxy.counters.bytes_out
                        &&& row.conns == proxy.counters.conns
                        &&& row.active == proxy.counters.active
                    },
            decreases self.proxies@.len() - i,
        {
            let p = &self.proxies[i];
            assert(self@.proxies[i as int] == self.proxies@[i as int]@);
            proxies.push(
                ProxyView {
                    name: p.name.clone(),
                    kind: p.kind.as_str().to_owned(),
                    remote_port: p.remote_port,
                    bytes_in: p.counters.bytes_in,
                    bytes_out: p.counters.bytes_out,
                    conns: p.counters.conns,
                    active: p.counters.active,
                },
            );
            i += 1;
        }
        let uptime_secs: u64 = if now >= self.since {
            (now - self.since) / NANOS_PER_SEC
        } else {
            0
        };
        let r = TunnelView {
            id: self.id,
            user: self.user.clone(),
            transport: self.transport.to_owned(),
            peer: self.peer.clone(),
            uptime_secs,
            proxies,
        };
        assert(r@.proxies =~= tunnel_report(self@, now).proxies);
        r
    }
}

/// What is kept of a history: the last [`HISTORY_CAP`] samples.
pub open spec fn capped(history: Seq<Sample>) -> Seq<Sample> {
    if history.len() > HISTORY_CAP {
        history.skip(history.len() - HISTORY_CAP)
    } else {
        history
    }
}

impl Metrics {
    /// Snapshot of all live tunnels for the dashboard API, in the order of their
    /// ids. `now` is the time on the clock that tunnels are registered by.
    pub fn tunnels(&self, now: u64) -> (r: Vec<TunnelView>)
        ensures
            r@.len() == self@.tunnels.len(),
            forall|i: int|
                0 <= i < r@.len() ==> #[trigger] r@[i]@ == tunnel_report(self@.tunnels[i], now),
            forall|i: int|
                0 <= i < r@.len() ==> {
                    let row = #[trigger] r@[i];
                    let tunnel = self@.tunnels[i];
                    &&& row.id == tunnel.id
                    &&& row.user@ == tunnel.user
                    &&& row.transport@ == tunnel.transport
                    &&& row.peer@ == tunnel.peer
                    &&& row.uptime_secs == if now >= tunnel.since {
                        (now - tunnel.since) / 1_000_000_000
                    } else {
                        0
                    }
                    &&& row.proxies@.len() == tunnel.proxies.len()
                },
            forall|i: int, k: int|
                0 <= i < r@.len() && 0 <= k < r@[i].proxies@.len() ==> {
                    let row = #[trigger] r@[i].proxies@[k];
                    let proxy = self@.tunnels[i].proxies[k];
                    &&& row.name@ == proxy.name
                    &&& row.kind@ == match proxy.kind {
                        ProxyKind::Tcp => "tcp"@,
                        ProxyKind::Udp => "udp"@,
                    }
                    &&& row.remote_port == proxy.remote_port
                    &&& row.bytes_in == proxy.counters.bytes_in
                    &&& row.bytes_out == proxy.counters.bytes_out
                    &&& row.conns == proxy.counters.conns
                    &&& row.active == proxy.counters.active
                },
            self@.wf() ==> forall|i: int, k: int|
                0 <= i < r@.len() && 0 <= k < r@[i].proxies@.len() ==> {
                    let row = #[trigger] r@[i].proxies@[k];
                    let counters = self@.counters(
                        ProxyHandle { tunnel: r@[i].id, index: k as usize },
                    );
                    &&& row.bytes_in == counters.bytes_in
                    &&& row.bytes_out == counters.bytes_out
                    &&& row.conns == counters.conns
                    &&& row.active == counters.active
                },
    {
        let mut r: Vec<TunnelView> = Vec::new();
        let mut i: usize = 0;
        while i < self.tunnels.len()
            invariant
                i <= self.tunnels@.len(),
                r@.len() == i,
                forall|k: int|
                    0 <= k < i ==> #[trigger] r@[k]@ == tunnel_report(self@.tunnels[k], now),
                forall|i: int|
                    0 <= i < r@.len() ==> {
                        let row = #[trigger] r@[i];
                        let tunnel = self@.tunnels[i];
                        &&& row.id == tunnel.id
                        &&& row.user@ == tunnel.user
                        &&& row.transport@ == tunnel.transport
                        &&& row.peer@ == tunnel.peer
                        &&& row.uptime_secs == if now >= tunnel.since {
                            (now - tunnel.since) / 1_000_000_000
                        } else {
                            0
                        }
                        &&& row.proxies@.len() == tunnel.proxies.len()
                    },
                forall|i: int, k: int|
                    0 <= i < r@.len() && 0 <= k < r@[i].proxies@.len() ==> {
                        let row = #[trigger] r@[i].proxies@[k];
                        let proxy = self@.tunnels[i].proxies[k];
                        &&& row.name@ == proxy.name
                        &&& row.kind@ == match proxy.kind {
                            ProxyKind::Tcp => "tcp"@,
                            ProxyKind::Udp => "udp"@,
                        }
                        &&& row.remote_port == proxy.remote_port
                        &&& row.bytes_in == proxy.counters.bytes_in
                        &&& row.bytes_out == proxy.counters.bytes_out
                        &&& row.conns == proxy.counters.conns
                        &&& row.active == proxy.counters.active
                    },
            decreases self.tunnels@.len() - i,
        {
            assert(self@.tunnels[i as int] == self.tunnels@[i as int]@);
            r.push(self.tunnels[i].report(now));
            i += 1;
        }
        proof {
            if self@.wf() {
                assert forall|i: int, k: int|
                    0 <= i < r@.len() && 0 <= k < r@[i].proxies@.len() implies ({
                    let row = #[trigger] r@[i].proxies@[k];
                    let counters = self@.counters(
                        ProxyHandle { tunnel: r@[i].id, index: k as usize },
                    );
                    &&& row.bytes_in == counters.bytes_in
                    &&& row.bytes_out == counters.bytes_out
                    &&& row.conns == counters.conns
                    &&& row.active == counters.active
                }) by {
                    assert(r@[i].id == self@.tunnels[i].id);
                    ids_identify_tunnels(self@, i);
                    assert(r@[i].proxies.len() == r@[i].proxies@.len());
                }
            }
        }
        r
    }

    /// Appends a history sample from the current totals, taken at `t` seconds of
    /// Unix time, and drops the oldest samples beyond [`HISTORY_CAP`].
    pub fn sample(&mut self, t: u64)
        requires
            old(self)@.wf(),
            old(self)@.totals_fit(),
        ensures
            final(self)@.wf(),
            final(self)@ == (Registry {
                history: capped(
                    old(self)@.history.push(
                        Sample {
                            t,
                            total_in: old(self)@.total_in() as u64,
                            total_out: old(self)@.total_out() as u64,
                        },
                    ),
                ),
                ..old(self)@
            }),
            old(self)@.monotonic() ==> final(self)@.monotonic(),
            ({
                let n = final(self)@.history.len() as int;
                let kept = old(self)@.history.len() as int;
                &&& n == if kept < 2048 {
                    kept + 1
                } else {
                    2048
                }
                &&& final(self)@.history[n - 1].t == t
                &&& final(self)@.history[n - 1].total_in == old(self)@.retired_in + tunnels_in(
                    old(self)@.tunnels,
                )
                &&& final(self)@.history[n - 1].total_out == old(self)@.retired_out + tunnels_out(
                    old(self)@.tunnels,
                )
                &&& forall|i: int|
                    0 <= i < n - 1 ==> #[trigger] final(self)@.history[i] == old(self)@.history[kept
                        - (n - 1) + i]
            }),
            final(self)@.tunnels == old(self)@.tunnels,
            final(self)@.next_id == old(self)@.next_id,
            final(self)@.retired_in == old(self)@.retired_in,
            final(self)@.retired_out == old(self)@.retired_out,
    {
        let (total_in, total_out) = self.totals();
        self.history.push_back(Sample { t, total_in, total_out });
        let ghost all = self.history@;
        assert(all.skip(0) =~= all);
        let ghost mut dropped: int = 0;
        while self.history.len() > HISTORY_CAP
            invariant
                0 <= dropped <= all.len(),
                self.history@ == all.skip(dropped),
                dropped > 0 ==> all.len() - dropped >= HISTORY_CAP,
                self.tunnels == old(self).tunnels,
                self.next_id == old(self).next_id,
                self.retired_in == old(self).retired_in,
                self.retired_out == old(self).retired_out,
            decreases self.history@.len(),
        {
            let _ = self.history.pop_front();
            assert(self.history@ =~= all.skip(dropped + 1));
            proof {
                dropped = dropped + 1;
            }
        }
        assert(self.history@ =~= capped(all));
        proof {
            if old(self)@.monotonic() {
                totals_never_fall_along_the_history(old(self)@, t);
            }
        }
    }

    /// The traffic history for the dashboard charts.
    pub fn history(&self) -> (r: Vec<Sample>)
        ensures
            r@ == self@.history,
    {
        let mut r: Vec<Sample> = Vec::new();
        let mut i: usize = 0;
        while i < self.history.len()
            invariant
                i <= self.history@.len(),
                r@ == self.history@.take(i as int),
            decreases self.history@.len() - i,
        {
            r.push(self.history[i]);
            assert(r@ =~= self.history@.take(i + 1));
            i += 1;
        }
        assert(r@ =~= self.history@);
        r
    }
}

// ---------------------------------------------------------------------------
// What holds of every registry
// ---------------------------------------------------------------------------

/// Where the totals fit, every tunnel can be retired.
pub proof fn fitting_totals_can_be_retired(m: Registry, id: u64)
    requires
        m.totals_fit(),
        m.connected(id),
    ensures
        m.retirable(id),
{
    lemma_tunnels_remove(m.tunnels, m.position(id) as int);
}

/// Counting moves the totals by exactly what the counters of the proxy moved.
pub proof fn totals_follow_the_counters(m: Registry, h: ProxyHandle, counters: Counters)
    requires
        m.has(h),
    ensures
        m.with_counters(h, counters).total_in() + m.counters(h).bytes_in == m.total_in()
            + counters.bytes_in,
        m.with_counters(h, counters).total_out() + m.counters(h).bytes_out == m.total_out()
            + counters.bytes_out,
{
    let at = m.position(h.tunnel) as int;
    let tunnel = m.tunnels[at];
    let proxy = ProxyState { counters, ..tunnel.proxies[h.index as int] };
    lemma_proxies_update(tunnel.proxies, h.index as int, proxy);
    lemma_tunnels_update(
        m.tunnels,
        at,
        TunnelState { proxies: tunnel.proxies.update(h.index as int, proxy), ..tunnel },
    );
}

/// Cumulative totals are monotonic: as long as no counter wraps, recording
/// traffic never lowers them.
pub proof fn totals_are_monotonic(m: Registry, h: ProxyHandle, counters: Counters)
    requires
        m.has(h),
        counters.bytes_in >= m.counters(h).bytes_in,
        counters.bytes_out >= m.counters(h).bytes_out,
    ensures
        m.with_counters(h, counters).total_in() >= m.total_in(),
        m.with_counters(h, counters).total_out() >= m.total_out(),
{
    totals_follow_the_counters(m, h, counters);
}

proof fn lemma_position_kept(m: Registry, h: ProxyHandle, counters: Counters, id: u64, from: nat)
    requires
        m.has(h),
        from <= m.tunnels.len(),
    ensures
        m.with_counters(h, counters).position_from(id, from) == m.position_from(id, from),
    decreases m.tunnels.len() - from,
{
    if from < m.tunnels.len() {
        lemma_position_kept(m, h, counters, id, from + 1);
    }
}

/// Published counters are what is shown of their proxy, and of no other: as long
/// as the tunnel is connected they are the ones the registry shows, and all other
/// proxies keep theirs. Once the tunnel is gone, publishing changes nothing.
pub proof fn published_counters_are_shown(m: Registry, p: ProxyCounters, other: ProxyHandle)
    requires
        m.wf(),
    ensures
        m.published(p).shows(p) == m.shows(p),
        m.shows(p) ==> m.published(p).counters(p.handle->0) == p.counters,
        !m.shows(p) ==> m.published(p) == m,
        m.published(p).has(other) == m.has(other),
        m.has(other) && p.handle != Some(other) ==> m.published(p).counters(other) == m.counters(
            other,
        ),
{
    if let Some(h) = p.handle {
        if m.has(h) {
            lemma_position_kept(m, h, p.counters, h.tunnel, 0);
            lemma_position_kept(m, h, p.counters, other.tunnel, 0);
            lemma_position(m, h.tunnel, 0);
            lemma_position(m, other.tunnel, 0);
        }
    }
}

/// Along the history the totals never fall: where they have not fallen before, the
/// next sample does not lie below the newest one, nor does dropping the oldest
/// samples change that.
pub proof fn totals_never_fall_along_the_history(m: Registry, t: u64)
    requires
        m.monotonic(),
        m.totals_fit(),
    ensures
        ({
            let sample = Sample { t, total_in: m.total_in() as u64, total_out: m.total_out() as u64 };
            let after = Registry { history: capped(m.history.push(sample)), ..m };
            after.monotonic() && after.history.last() == sample
        }),
{
    let sample = Sample { t, total_in: m.total_in() as u64, total_out: m.total_out() as u64 };
    let all = m.history.push(sample);
    assert forall|i: int, j: int| 0 <= i < j < all.len() implies (#[trigger] all[i]).total_in <= (
    #[trigger] all[j]).total_in && all[i].total_out <= all[j].total_out by {
        if j == m.history.len() && i < j - 1 {
            assert(m.history[i].total_in <= m.history[j - 1].total_in);
        }
    }
}

/// Recording traffic keeps that: as long as no counter wraps, the totals do not
/// fall below the newest sample.
pub proof fn counting_never_lowers_the_totals(m: Registry, h: ProxyHandle, counters: Counters)
    requires
        m.monotonic(),
        m.has(h),
        counters.bytes_in >= m.counters(h).bytes_in,
        counters.bytes_out >= m.counters(h).bytes_out,
    ensures
        m.with_counters(h, counters).monotonic(),
{
    totals_follow_the_counters(m, h, counters);
}

/// The history survives a restart: a run that starts with the history of an
/// earlier one shows the same samples in the same order, has no tunnels, and
/// takes no sample that lies below the earlier ones.
pub proof fn history_survives_a_restart(m: Registry, t: u64)
    requires
        m.monotonic(),
    ensures
        Registry::resumed(m.history).history == m.history,
        Registry::resumed(m.history).tunnels.len() == 0,
        Registry::resumed(m.history).wf(),
        Registry::resumed(m.history).monotonic(),
        Registry::resumed(m.history).totals_fit(),
        ({
            let after = Registry::resumed(m.history);
            let sample = Sample {
                t,
                total_in: after.total_in() as u64,
                total_out: after.total_out() as u64,
            };
            never_falls(capped(after.history.push(sample)))
        }),
{
    totals_never_fall_along_the_history(Registry::resumed(m.history), t);
}

/// Registering leaves the totals as they are: a tunnel starts without proxies and
/// a proxy without traffic.
pub proof fn registering_keeps_the_totals(m: Registry, tunnel: TunnelState, at: int, proxy: ProxyState)
    requires
        tunnel.proxies.len() == 0,
        0 <= at < m.tunnels.len(),
        proxy.counters.bytes_in == 0,
        proxy.counters.bytes_out == 0,
    ensures
        (Registry { tunnels: m.tunnels.push(tunnel), ..m }).total_in() == m.total_in(),
        (Registry { tunnels: m.tunnels.push(tunnel), ..m }).total_out() == m.total_out(),
        ({
            let grown = TunnelState {
                proxies: m.tunnels[at].proxies.push(proxy),
                ..m.tunnels[at]
            };
            let after = Registry { tunnels: m.tunnels.update(at, grown), ..m };
            after.total_in() == m.total_in() && after.total_out() == m.total_out()
        }),
{
    assert(m.tunnels.push(tunnel).drop_last() =~= m.tunnels);
    let grown = TunnelState { proxies: m.tunnels[at].proxies.push(proxy), ..m.tunnels[at] };
    assert(grown.proxies.drop_last() =~= m.tunnels[at].proxies);
    lemma_tunnels_update(m.tunnels, at, grown);
}

/// A tunnel is found under its id, and only there.
pub proof fn ids_identify_tunnels(m: Registry, i: int)
    requires
        m.wf(),
        0 <= i < m.tunnels.len(),
    ensures
        m.connected(m.tunnels[i].id),
        m.position(m.tunnels[i].id) == i,
{
    let id = m.tunnels[i].id;
    lemma_position(m, id, 0);
    let at = m.position(id) as int;
    if at < i {
        assert(m.tunnels[at].id < m.tunnels[i].id);
    } else if at > i {
        assert(m.tunnels[i].id != id);
    }
}

/// A tunnel is connected exactly if one with that id is there, and it is found
/// where the first such one stands.
pub proof fn tunnels_are_found_by_their_id(m: Registry, id: u64)
    ensures
        m.connected(id) <==> exists|i: int|
            0 <= i < m.tunnels.len() && (#[trigger] m.tunnels[i]).id == id,
        m.connected(id) ==> 0 <= m.position(id) < m.tunnels.len() && m.tunnels[m.position(
            id,
        ) as int].id == id,
{
    lemma_position(m, id, 0);
    if m.connected(id) {
        assert(m.tunnels[m.position(id) as int].id == id);
    }
}

proof fn lemma_only_one_has_the_id(m: Registry, id: u64)
    requires
        m.wf(),
    ensures
        forall|i: int|
            0 <= i < m.tunnels.len() && (#[trigger] m.tunnels[i]).id == id ==> i == m.position(id),
{
    assert forall|i: int|
        0 <= i < m.tunnels.len() && (#[trigger] m.tunnels[i]).id == id implies i == m.position(
        id,
    ) by {
        ids_identify_tunnels(m, i);
    }
}

/// Each row of a tunnel shows the counters that the registry holds for that proxy
/// of that tunnel, under the proxy's own name, kind and port.
pub proof fn rows_show_their_own_proxy(m: Registry, i: int, k: int, now: u64)
    requires
        m.wf(),
        0 <= i < m.tunnels.len(),
        0 <= k < m.tunnels[i].proxies.len() <= usize::MAX,
    ensures
        ({
            let report = tunnel_report(m.tunnels[i], now);
            let row = report.proxies[k];
            let h = ProxyHandle { tunnel: m.tunnels[i].id, index: k as usize };
            &&& report.id == m.tunnels[i].id
            &&& report.proxies.len() == m.tunnels[i].proxies.len()
            &&& m.has(h)
            &&& row.counters.bytes_in == m.counters(h).bytes_in
            &&& row.counters.bytes_out == m.counters(h).bytes_out
            &&& row.counters.conns == m.counters(h).conns
            &&& row.counters.active == m.counters(h).active
            &&& row.name == m.tunnels[i].proxies[k].name
            &&& row.remote_port == m.tunnels[i].proxies[k].remote_port
            &&& row.kind == match m.tunnels[i].proxies[k].kind {
                ProxyKind::Tcp => "tcp"@,
                ProxyKind::Udp => "udp"@,
            }
        }),
{
    ids_identify_tunnels(m, i);
}

/// Publishing counters makes exactly one row show them, the one they were handed
/// out for; every other row, and all else that a row says, stays as it is.
pub proof fn published_counters_appear_in_their_row(
    m: Registry,
    p: ProxyCounters,
    i: int,
    k: int,
    now: u64,
)
    requires
        m.wf(),
        0 <= i < m.tunnels.len(),
        0 <= k < m.tunnels[i].proxies.len() <= usize::MAX,
    ensures
        ({
            let before = tunnel_report(m.tunnels[i], now);
            let after = tunnel_report(m.published(p).tunnels[i], now);
            let h = ProxyHandle { tunnel: m.tunnels[i].id, index: k as usize };
            &&& m.published(p).tunnels.len() == m.tunnels.len()
            &&& after.id == before.id
            &&& after.user == before.user
            &&& after.transport == before.transport
            &&& after.peer == before.peer
            &&& after.uptime_secs == before.uptime_secs
            &&& after.proxies.len() == before.proxies.len()
            &&& after.proxies[k].name == before.proxies[k].name
            &&& after.proxies[k].kind == before.proxies[k].kind
            &&& after.proxies[k].remote_port == before.proxies[k].remote_port
            &&& p.handle == Some(h) ==> after.proxies[k].counters == p.counters
            &&& p.handle != Some(h) ==> after.proxies[k].counters == before.proxies[k].counters
        }),
{
    ids_identify_tunnels(m, i);
    if let Some(g) = p.handle {
        tunnels_are_found_by_their_id(m, g.tunnel);
        lemma_only_one_has_the_id(m, g.tunnel);
    }
}

/// Totals are sums: a further proxy adds its own bytes, a further tunnel those of
/// its proxies, and nothing else counts.
pub proof fn totals_are_sums(
    proxies: Seq<ProxyState>,
    proxy: ProxyState,
    tunnels: Seq<TunnelState>,
    tunnel: TunnelState,
    m: Registry,
)
    ensures
        proxies_in(Seq::empty()) == 0 && proxies_out(Seq::empty()) == 0,
        tunnels_in(Seq::empty()) == 0 && tunnels_out(Seq::empty()) == 0,
        proxies_in(proxies.push(proxy)) == proxies_in(proxies) + proxy.counters.bytes_in,
        proxies_out(proxies.push(proxy)) == proxies_out(proxies) + proxy.counters.bytes_out,
        tunnels_in(tunnels.push(tunnel)) == tunnels_in(tunnels) + proxies_in(tunnel.proxies),
        tunnels_out(tunnels.push(tunnel)) == tunnels_out(tunnels) + proxies_out(tunnel.proxies),
        m.total_in() == m.retired_in + tunnels_in(m.tunnels),
        m.total_out() == m.retired_out + tunnels_out(m.tunnels),
{
    assert(proxies.push(proxy).drop_last() =~= proxies);
    assert(tunnels.push(tunnel).drop_last() =~= tunnels);
}

/// The history never grows beyond its cap by sampling, and its newest entry is
/// the newest sample.
pub proof fn history_is_capped(history: Seq<Sample>, sample: Sample)
    ensures
        capped(history.push(sample)).len() <= HISTORY_CAP,
        capped(history.push(sample)).last() == sample,
        history.len() < HISTORY_CAP ==> capped(history.push(sample)) == history.push(sample),
{
}

} // verus!
