//! UDP sessions of a proxy: which data substream a public peer's datagrams go
//! through.
//!
//! Each public peer of a UDP proxy gets a session of its own, carried by a data
//! substream to the client. A session is dropped when the local service has been
//! silent for [`UDP_IDLE_SECS`]; the client enforces the same. Times are in seconds
//! on a monotonic clock.

use vstd::prelude::*;

use crate::srpc::client::UDP_IDLE_SECS;
use crate::text::same_text;

verus! {

/// A session.
#[derive(Debug)]
pub struct Session {
    pub id: u64,
    /// The address of the public peer.
    pub peer: String,
    /// When the local service was last heard, or else when the session began.
    pub heard: u64,
}

/// A [`Session`] by its values.
pub struct SessionState {
    pub id: u64,
    pub peer: Seq<char>,
    pub heard: u64,
}

impl View for Session {
    type V = SessionState;

    open spec fn view(&self) -> SessionState {
        SessionState { id: self.id, peer: self.peer@, heard: self.heard }
    }
}

/// The sessions of a UDP proxy.
#[derive(Debug)]
pub struct Sessions {
    next_id: u64,
    sessions: Vec<Session>,
}

/// [`Sessions`] by their values, in the order in which they began.
#[verifier::ext_equal]
pub struct Table {
    pub next_id: u64,
    pub sessions: Seq<SessionState>,
}

impl View for Sessions {
    type V = Table;

    closed spec fn view(&self) -> Table {
        Table {
            next_id: self.next_id,
            sessions: Seq::new(self.sessions@.len(), |i: int| self.sessions@[i]@),
        }
    }
}

/// Where a datagram of a public peer goes.
#[derive(Debug, Clone, Copy, PartialEq, Eq, Structural)]
pub enum Delivery {
    /// Through this session.
    Through(u64),
    /// Through this session, which begins with it: open a data substream for it.
    Open(u64),
}

/// Whether the local service of a session has been silent for too long.
pub open spec fn idle(s: SessionState, now: u64) -> bool {
    now >= s.heard + UDP_IDLE_SECS
}

/// The sessions that are not idle, in the same order.
pub open spec fn fresh(sessions: Seq<SessionState>, now: u64) -> Seq<SessionState>
    decreases sessions.len(),
{
    if sessions.len() == 0 {
        Seq::empty()
    } else if idle(sessions.last(), now) {
        fresh(sessions.drop_last(), now)
    } else {
        fresh(sessions.drop_last(), now).push(sessions.last())
    }
}

/// The ids of the sessions that are idle, in the same order.
pub open spec fn idle_ids(sessions: Seq<SessionState>, now: u64) -> Seq<u64>
    decreases sessions.len(),
{
    if sessions.len() == 0 {
        Seq::empty()
    } else if idle(sessions.last(), now) {
        idle_ids(sessions.drop_last(), now).push(sessions.last().id)
    } else {
        idle_ids(sessions.drop_last(), now)
    }
}

/// Whether ids ascend below `next_id`, and no two sessions have the same peer.
pub open spec fn distinct(sessions: Seq<SessionState>, next_id: u64) -> bool {
    &&& forall|i: int| 0 <= i < sessions.len() ==> (#[trigger] sessions[i]).id < next_id
    &&& forall|i: int, j: int|
        0 <= i < j < sessions.len() ==> (#[trigger] sessions[i]).id < (#[trigger] sessions[j]).id
            && sessions[i].peer != sessions[j].peer
}

impl Table {
    /// Every peer has at most one session, and ids are never reused.
    pub open spec fn wf(self) -> bool {
        distinct(self.sessions, self.next_id)
    }

    /// The first position at or after `from` of the session of `peer`, or the
    /// number of sessions.
    pub open spec fn of_peer_from(self, peer: Seq<char>, from: nat) -> nat
        decreases self.sessions.len() - from,
    {
        if from >= self.sessions.len() {
            self.sessions.len()
        } else if self.sessions[from as int].peer == peer {
            from
        } else {
            self.of_peer_from(peer, from + 1)
        }
    }

    /// The position of the session of `peer`, or the number of sessions.
    pub open spec fn of_peer(self, peer: Seq<char>) -> nat {
        self.of_peer_from(peer, 0)
    }

    /// The first position at or after `from` of the session with that id, or the
    /// number of sessions.
    pub open spec fn with_id_from(self, id: u64, from: nat) -> nat
        decreases self.sessions.len() - from,
    {
        if from >= self.sessions.len() {
            self.sessions.len()
        } else if self.sessions[from as int].id == id {
            from
        } else {
            self.with_id_from(id, from + 1)
        }
    }

    /// The position of the session with that id, or the number of sessions.
    pub open spec fn with_id(self, id: u64) -> nat {
        self.with_id_from(id, 0)
    }

    /// Where a datagram of `peer` goes.
    pub open spec fn delivery(self, peer: Seq<char>) -> Delivery {
        let at = self.of_peer(peer);
        if at < self.sessions.len() {
            Delivery::Through(self.sessions[at as int].id)
        } else {
            Delivery::Open(self.next_id)
        }
    }

    /// The sessions once a datagram of `peer` has come at the time `now`.
    pub open spec fn delivered(self, peer: Seq<char>, now: u64) -> Table {
        if self.of_peer(peer) < self.sessions.len() {
            self
        } else {
            Table {
                next_id: (self.next_id + 1) as u64,
                sessions: self.sessions.push(
                    SessionState { id: self.next_id, peer, heard: now },
                ),
            }
        }
    }
}

proof fn lemma_of_peer(t: Table, peer: Seq<char>, from: nat)
    requires
        from <= t.sessions.len(),
    ensures
        from <= t.of_peer_from(peer, from) <= t.sessions.len(),
        t.of_peer_from(peer, from) < t.sessions.len() ==> t.sessions[t.of_peer_from(
            peer,
            from,
        ) as int].peer == peer,
        forall|i: int|
            from <= i < t.of_peer_from(peer, from) ==> (#[trigger] t.sessions[i]).peer != peer,
    decreases t.sessions.len() - from,
{
    if from < t.sessions.len() && t.sessions[from as int].peer != peer {
        lemma_of_peer(t, peer, from + 1);
    }
}

proof fn lemma_with_id(t: Table, id: u64, from: nat)
    requires
        from <= t.sessions.len(),
    ensures
        from <= t.with_id_from(id, from) <= t.sessions.len(),
        t.with_id_from(id, from) < t.sessions.len() ==> t.sessions[t.with_id_from(
            id,
            from,
        ) as int].id == id,
        forall|i: int|
            from <= i < t.with_id_from(id, from) ==> (#[trigger] t.sessions[i]).id != id,
    decreases t.sessions.len() - from,
{
    if from < t.sessions.len() && t.sessions[from as int].id != id {
        lemma_with_id(t, id, from + 1);
    }
}

proof fn lemma_fresh(sessions: Seq<SessionState>, next_id: u64, now: u64)
    requires
        distinct(sessions, next_id),
    ensures
        distinct(fresh(sessions, now), next_id),
        forall|s: SessionState|
            #[trigger] fresh(sessions, now).contains(s) <==> sessions.contains(s) && !idle(s, now),
    decreases sessions.len(),
{
    if sessions.len() > 0 {
        let front = sessions.drop_last();
        let last = sessions.last();
        assert(distinct(front, next_id));
        lemma_fresh(front, next_id, now);
        let kept = fresh(front, now);
        assert forall|i: int| 0 <= i < kept.len() implies (#[trigger] kept[i]).id < last.id
            && kept[i].peer != last.peer by {
            assert(kept.contains(kept[i]));
            assert(front.contains(kept[i]));
            let j = choose|j: int| 0 <= j < front.len() && front[j] == kept[i];
            assert(sessions[j].id < sessions[sessions.len() - 1].id);
        }
        assert forall|s: SessionState|
            #[trigger] fresh(sessions, now).contains(s) <==> sessions.contains(s) && !idle(
            s,
            now,
        ) by {
            let all = fresh(sessions, now);
            if sessions.contains(s) {
                let j = choose|j: int| 0 <= j < sessions.len() && sessions[j] == s;
                if j < front.len() {
                    assert(front[j] == s);
                    assert(front.contains(s));
                    if !idle(s, now) {
                        assert(kept.contains(s));
                        let i = choose|i: int| 0 <= i < kept.len() && kept[i] == s;
                        assert(all[i] == s);
                    }
                } else if !idle(s, now) {
                    assert(all[all.len() - 1] == s);
                }
            }
            if all.contains(s) {
                let i = choose|i: int| 0 <= i < all.len() && all[i] == s;
                if i < kept.len() {
                    assert(kept[i] == s);
                    assert(kept.contains(s));
                    assert(front.contains(s));
                    let j = choose|j: int| 0 <= j < front.len() && front[j] == s;
                    assert(sessions[j] == s);
                } else {
                    assert(sessions[sessions.len() - 1] == s);
                }
            }
        }
    }
}

impl Sessions {
    /// No sessions yet.
    pub fn new() -> (t: Sessions)
        ensures
            t@ == (Table { next_id: 0, sessions: Seq::empty() }),
            t@.wf(),
    {
        let t = Sessions { next_id: 0, sessions: Vec::new() };
        assert(t@.sessions =~= Seq::empty());
        t
    }

    /// Whether there is an id left for another session.
    pub fn ids_left(&self) -> (r: bool)
        ensures
            r == (self@.next_id < u64::MAX),
    {
        self.next_id < u64::MAX
    }

    /// Says where a datagram of the public peer `peer` goes: through the session of
    /// that peer, which begins if there is none.
    pub fn deliver(&mut self, peer: &str, now: u64) -> (r: Delivery)
        requires
            old(self)@.wf(),
            old(self)@.next_id < u64::MAX,
        ensures
            final(self)@.wf(),
            r == old(self)@.delivery(peer@),
            final(self)@ == old(self)@.delivered(peer@, now),
            r is Through ==> final(self)@ == old(self)@ && exists|i: int|
                0 <= i < old(self)@.sessions.len() && (#[trigger] old(self)@.sessions[i]).peer
                    == peer@ && old(self)@.sessions[i].id == r->Through_0,
            r is Open ==> {
                let n = old(self)@.sessions.len() as int;
                &&& forall|i: int|
                    0 <= i < n ==> (#[trigger] old(self)@.sessions[i]).peer != peer@ && old(
                        self,
                    )@.sessions[i].id != r->Open_0
                &&& final(self)@.sessions.len() == n + 1
                &&& final(self)@.sessions.take(n) == old(self)@.sessions
                &&& final(self)@.sessions[n].id == r->Open_0
                &&& final(self)@.sessions[n].peer == peer@
                &&& final(self)@.sessions[n].heard == now
            },
    {
        proof {
            lemma_of_peer(self@, peer@, 0);
        }
        let mut i: usize = 0;
        while i < self.sessions.len()
            invariant
                i <= self.sessions@.len(),
                *self == *old(self),
                self@.wf(),
                self@.of_peer_from(peer@, i as nat) == self@.of_peer(peer@),
            decreases self.sessions@.len() - i,
        {
            assert(self@.sessions[i as int] == self.sessions@[i as int]@);
            if same_text(self.sessions[i].peer.as_str(), peer) {
                return Delivery::Through(self.sessions[i].id);
            }
            i += 1;
        }
        proof {
            lemma_of_peer(self@, peer@, 0);
        }
        let id: u64 = self.next_id;
        self.next_id = id + 1;
        self.sessions.push(Session { id, peer: peer.to_owned(), heard: now });
        assert(self@ =~= old(self)@.delivered(peer@, now));
        assert(self@.sessions.take(old(self)@.sessions.len() as int) =~= old(self)@.sessions);
        Delivery::Open(id)
    }

    fn find(&self, id: u64) -> (r: usize)
        ensures
            r == self@.with_id(id),
            r <= self.sessions@.len(),
    {
        let mut i: usize = 0;
        while i < self.sessions.len()
            invariant
                i <= self.sessions@.len(),
                self@.with_id_from(id, i as nat) == self@.with_id(id),
            decreases self.sessions@.len() - i,
        {
            assert(self@.sessions[i as int] == self.sessions@[i as int]@);
            if self.sessions[i].id == id {
                return i;
            }
            i += 1;
        }
        i
    }

    /// Notes a datagram of the local service on the session with that id, and says
    /// which public peer it goes to; `None` if the session has been dropped.
    pub fn reply(&mut self, id: u64, now: u64) -> (r: Option<String>)
        requires
            old(self)@.wf(),
        ensures
            final(self)@.wf(),
            r is Some <==> old(self)@.with_id(id) < old(self)@.sessions.len(),
            r is None ==> final(self)@ == old(self)@,
            r matches Some(peer) ==> {
                let at = old(self)@.with_id(id) as int;
                let session = old(self)@.sessions[at];
                &&& peer@ == session.peer
                &&& final(self)@ == (Table {
                    sessions: old(self)@.sessions.update(
                        at,
                        SessionState { heard: now, ..session },
                    ),
                    ..old(self)@
                })
            },
            r is None <==> forall|i: int|
                0 <= i < old(self)@.sessions.len() ==> (#[trigger] old(self)@.sessions[i]).id != id,
            r matches Some(peer) ==> forall|i: int|
                0 <= i < old(self)@.sessions.len() && (#[trigger] old(self)@.sessions[i]).id == id
                    ==> peer@ == old(self)@.sessions[i].peer,
            final(self)@.sessions.len() == old(self)@.sessions.len(),
            final(self)@.next_id == old(self)@.next_id,
            forall|i: int|
                0 <= i < old(self)@.sessions.len() ==> {
                    let before = old(self)@.sessions[i];
                    let after = #[trigger] final(self)@.sessions[i];
                    &&& after.id == before.id
                    &&& after.peer == before.peer
                    &&& after.heard == if before.id == id {
                        now
                    } else {
                        before.heard
                    }
                },
    {
        let at: usize = self.find(id);
        proof {
            lemma_with_id(self@, id, 0);
            lemma_one_with_id(self@, id);
        }
        if at == self.sessions.len() {
            return None;
        }
        let ghost session = self.sessions@[at as int]@;
        let peer = self.sessions[at].peer.clone();
        self.sessions[at].heard = now;
        assert(self@.sessions =~= old(self)@.sessions.update(
            at as int,
            SessionState { heard: now, ..session },
        ));
        Some(peer)
    }

    /// Drops the session with that id, if there is one: its data substream has
    /// ended.
    pub fn close(&mut self, id: u64)
        requires
            old(self)@.wf(),
        ensures
            final(self)@.wf(),
            final(self)@ == (if old(self)@.with_id(id) < old(self)@.sessions.len() {
                Table {
                    sessions: old(self)@.sessions.remove(old(self)@.with_id(id) as int),
                    ..old(self)@
                }
            } else {
                old(self)@
            }),
            final(self)@.next_id == old(self)@.next_id,
            forall|i: int|
                0 <= i < final(self)@.sessions.len() ==> (#[trigger] final(self)@.sessions[i]).id
                    != id && old(self)@.sessions.contains(final(self)@.sessions[i]),
            forall|i: int|
                0 <= i < old(self)@.sessions.len() && (#[trigger] old(self)@.sessions[i]).id != id
                    ==> final(self)@.sessions.contains(old(self)@.sessions[i]),
    {
        let at: usize = self.find(id);
        proof {
            lemma_with_id(self@, id, 0);
            lemma_one_with_id(self@, id);
        }
        if at < self.sessions.len() {
            let _ = self.sessions.remove(at);
            assert(self@.sessions =~= old(self)@.sessions.remove(at as int));
        }
        proof {
            let all = old(self)@.sessions;
            assert forall|i: int| 0 <= i < self@.sessions.len() implies (
            #[trigger] self@.sessions[i]).id != id && all.contains(self@.sessions[i]) by {
                let k = if i < at {
                    i
                } else {
                    i + 1
                };
                assert(self@.sessions[i] == all[k]);
            }
            assert forall|i: int| 0 <= i < all.len() && (#[trigger] all[i]).id
                != id implies self@.sessions.contains(all[i]) by {
                let k = if i < at {
                    i
                } else {
                    i - 1
                };
                assert(self@.sessions[k] == all[i]);
            }
        }
    }

    /// Drops the sessions that are idle at the time `now`, and gives their ids.
    pub fn expire(&mut self, now: u64) -> (ids: Vec<u64>)
        requires
            old(self)@.wf(),
        ensures
            final(self)@.wf(),
            ids@ == idle_ids(old(self)@.sessions, now),
            final(self)@ == (Table {
                sessions: fresh(old(self)@.sessions, now),
                ..old(self)@
            }),
            final(self)@.next_id == old(self)@.next_id,
            final(self)@.sessions == old(self)@.sessions.filter(
                |s: SessionState| now < s.heard + 60,
            ),
            ids@ == old(self)@.sessions.filter(|s: SessionState| now >= s.heard + 60).map_values(
                |s: SessionState| s.id,
            ),
    {
        proof {
            sessions_are_dropped_once_idle(
                self@.sessions,
                now,
                |s: SessionState| now < s.heard + 60,
                |s: SessionState| now >= s.heard + 60,
                |s: SessionState| s.id,
            );
        }
        let ghost all = self@.sessions;
        let mut ids: Vec<u64> = Vec::new();
        let mut kept: Vec<Session> = Vec::new();
        let ghost mut shown: Seq<SessionState> = Seq::empty();
        let mut i: usize = 0;
        while i < self.sessions.len()
            invariant
                i <= self.sessions@.len(),
                *self == *old(self),
                all == self@.sessions,
                ids@ == idle_ids(all.take(i as int), now),
                shown == fresh(all.take(i as int), now),
                kept@.len() == shown.len(),
                forall|k: int| 0 <= k < kept@.len() ==> #[trigger] kept@[k]@ == shown[k],
            decreases self.sessions@.len() - i,
        {
            assert(all.take(i + 1).drop_last() =~= all.take(i as int));
            assert(all[i as int] == self.sessions@[i as int]@);
            let s = &self.sessions[i];
            if now >= s.heard && now - s.heard >= UDP_IDLE_SECS {
                ids.push(s.id);
            } else {
                kept.push(Session { id: s.id, peer: s.peer.clone(), heard: s.heard });
            }
            proof {
                shown = fresh(all.take(i + 1), now);
            }
            i += 1;
        }
        assert(all.take(i as int) =~= all);
        self.sessions = kept;
        assert(self@.sessions =~= fresh(all, now));
        proof {
            lemma_fresh(all, self.next_id, now);
        }
        ids
    }
}

// ---------------------------------------------------------------------------
// What holds of all sessions
// ---------------------------------------------------------------------------

/// Peers are kept apart: a datagram goes through a session of its own peer and of
/// no other, the next one of that peer goes through the same session, and what
/// the local service answers on it goes back to that peer.
pub proof fn answers_go_back_to_the_peer(t: Table, peer: Seq<char>, now: u64)
    requires
        t.wf(),
        t.next_id < u64::MAX,
    ensures
        ({
            let after = t.delivered(peer, now);
            let id = match t.delivery(peer) {
                Delivery::Through(id) => id,
                Delivery::Open(id) => id,
            };
            &&& after.wf()
            &&& after.delivery(peer) == Delivery::Through(id)
            &&& after.with_id(id) < after.sessions.len()
            &&& after.sessions[after.with_id(id) as int].peer == peer
        }),
{
    lemma_of_peer(t, peer, 0);
    let after = t.delivered(peer, now);
    lemma_of_peer(after, peer, 0);
    if t.of_peer(peer) == t.sessions.len() {
        assert(after.sessions[t.sessions.len() as int].peer == peer);
        assert(after.of_peer(peer) == t.sessions.len()) by {
            let at = after.of_peer(peer) as int;
            if at < t.sessions.len() {
                assert(after.sessions[at] == t.sessions[at]);
            }
        }
    }
    let at = after.of_peer(peer) as int;
    let id = after.sessions[at].id;
    lemma_with_id(after, id, 0);
    let found = after.with_id(id) as int;
    if found < at {
        assert(after.sessions[found].id < after.sessions[at].id);
    } else if found > at {
        assert(after.sessions[at].id != id);
    }
}

proof fn lemma_one_with_id(t: Table, id: u64)
    requires
        t.wf(),
    ensures
        forall|i: int|
            0 <= i < t.sessions.len() && (#[trigger] t.sessions[i]).id == id ==> i == t.with_id(id),
{
    lemma_with_id(t, id, 0);
    assert forall|i: int|
        0 <= i < t.sessions.len() && (#[trigger] t.sessions[i]).id == id implies i == t.with_id(
        id,
    ) by {
        let at = t.with_id(id) as int;
        if at < i {
            assert(t.sessions[at].id < t.sessions[i].id);
        } else if i < at {
            assert(t.sessions[i].id != id);
        }
    }
}

/// Expiry parts the sessions at a minute of silence: those that were heard later
/// stay, in the same order, and the ids of the others are given, in that order
/// too.
pub proof fn sessions_are_dropped_once_idle(
    sessions: Seq<SessionState>,
    now: u64,
    stays: spec_fn(SessionState) -> bool,
    goes: spec_fn(SessionState) -> bool,
    id: spec_fn(SessionState) -> u64,
)
    requires
        forall|s: SessionState| #[trigger] stays(s) <==> now < s.heard + 60,
        forall|s: SessionState| #[trigger] goes(s) <==> now >= s.heard + 60,
        forall|s: SessionState| #[trigger] id(s) == s.id,
    ensures
        fresh(sessions, now) == sessions.filter(stays),
        idle_ids(sessions, now) == sessions.filter(goes).map_values(id),
    decreases sessions.len(),
{
    reveal(Seq::filter);
    if sessions.len() > 0 {
        let front = sessions.drop_last();
        sessions_are_dropped_once_idle(front, now, stays, goes, id);
        assert(idle_ids(sessions, now) =~= sessions.filter(goes).map_values(id));
    } else {
        assert(sessions =~= Seq::empty());
        assert(idle_ids(sessions, now) =~= sessions.filter(goes).map_values(id));
    }
}

/// Exactly the idle sessions are dropped.
pub proof fn only_idle_sessions_are_dropped(t: Table, now: u64, s: SessionState)
    requires
        t.wf(),
        t.sessions.contains(s),
    ensures
        fresh(t.sessions, now).contains(s) <==> now < s.heard + UDP_IDLE_SECS,
{
    lemma_fresh(t.sessions, t.next_id, now);
}

} // verus!
