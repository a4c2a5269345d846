//! Keeping the tunnel up: a heartbeat detects a dead tunnel, and the client
//! reconnects with exponential backoff, re-running the transport fallback each
//! time.
//!
//! Times are in seconds on a monotonic clock.

use vstd::arithmetic::power2::{lemma2_to64, lemma_pow2_unfold, pow2};
use vstd::prelude::*;

use super::client::Attempts;

verus! {

// ---------------------------------------------------------------------------
// Heartbeat
// ---------------------------------------------------------------------------

/// How long the client goes without sending a ping.
pub const PING_EVERY_SECS: u64 = 15;

/// A tunnel on which nothing has been heard for this long is dead.
pub const DEAD_AFTER_SECS: u64 = 45;

/// How long `then` is ago at the time `now`.
pub open spec fn ago(now: u64, then: u64) -> u64 {
    if now >= then {
        (now - then) as u64
    } else {
        0
    }
}

fn elapsed(now: u64, then: u64) -> (r: u64)
    ensures
        r == ago(now, then),
{
    if now >= then {
        now - then
    } else {
        0
    }
}

/// What the heartbeat of a tunnel goes by.
#[derive(Debug, Clone, Copy, PartialEq, Eq, Structural)]
pub struct Heartbeat {
    /// When the server was last heard.
    pub heard: u64,
    /// When the last ping was sent.
    pub pinged: u64,
}

/// What the heartbeat asks for.
#[derive(Debug, Clone, Copy, PartialEq, Eq, Structural)]
pub enum Beat {
    /// Send a ping, and ask again.
    Ping,
    /// Give the tunnel up.
    Dead,
    /// Ask again after this many seconds.
    Wait(u64),
}

impl Heartbeat {
    /// The heartbeat of a tunnel that came up at the time `now`.
    pub open spec fn started(now: u64) -> Heartbeat {
        Heartbeat { heard: now, pinged: now }
    }

    /// What is asked for at the time `now`.
    pub open spec fn due(self, now: u64) -> Beat {
        let silent = ago(now, self.heard);
        let unpinged = ago(now, self.pinged);
        if silent >= DEAD_AFTER_SECS {
            Beat::Dead
        } else if unpinged >= PING_EVERY_SECS {
            Beat::Ping
        } else {
            Beat::Wait(
                vstd::math::min(
                    DEAD_AFTER_SECS - silent,
                    PING_EVERY_SECS - unpinged,
                ) as u64,
            )
        }
    }

    /// Starts the heartbeat of a tunnel that has just come up.
    pub fn new(now: u64) -> (h: Heartbeat)
        ensures
            h == Heartbeat::started(now),
            h.heard == now && h.pinged == now,
    {
        Heartbeat { heard: now, pinged: now }
    }

    /// Notes that a message of the server has come, whatever it says.
    pub fn on_message(&mut self, now: u64)
        ensures
            *final(self) == (Heartbeat { heard: now, ..*old(self) }),
    {
        self.heard = now;
    }

    /// Says what is due: a ping, giving up, or nothing for a while. A ping that is
    /// due counts as sent.
    pub fn on_tick(&mut self, now: u64) -> (r: Beat)
        ensures
            r == old(self).due(now),
            *final(self) == (if r == Beat::Ping {
                Heartbeat { pinged: now, ..*old(self) }
            } else {
                *old(self)
            }),
            r is Dead <==> now >= old(self).heard + 45,
            r is Ping <==> now < old(self).heard + 45 && now >= old(self).pinged + 15,
            r is Wait ==> 0 < r->Wait_0 <= 15,
            r is Wait && old(self).heard <= now && old(self).pinged <= now ==> {
                let then = now + r->Wait_0;
                &&& then <= old(self).heard + 45
                &&& then <= old(self).pinged + 15
                &&& then == old(self).heard + 45 || then == old(self).pinged + 15
            },
            final(self).heard == old(self).heard,
            final(self).pinged == (if r is Ping {
                now
            } else {
                old(self).pinged
            }),
    {
        let silent: u64 = elapsed(now, self.heard);
        let unpinged: u64 = elapsed(now, self.pinged);
        if silent >= DEAD_AFTER_SECS {
            return Beat::Dead;
        }
        if unpinged >= PING_EVERY_SECS {
            self.pinged = now;
            return Beat::Ping;
        }
        let until_dead: u64 = DEAD_AFTER_SECS - silent;
        let until_ping: u64 = PING_EVERY_SECS - unpinged;
        if until_dead < until_ping {
            Beat::Wait(until_dead)
        } else {
            Beat::Wait(until_ping)
        }
    }
}

/// A dead tunnel is detected, and no other is given up: the tunnel counts as dead
/// exactly when nothing has been heard for [`DEAD_AFTER_SECS`].
pub proof fn dead_tunnels_are_detected(h: Heartbeat, now: u64)
    ensures
        h.due(now) is Dead <==> now >= h.heard + DEAD_AFTER_SECS,
{
}

/// The heartbeat never waits past what is due: after the wait it asked for, with
/// nothing heard meanwhile, there is something to do, and no wait is longer than
/// [`PING_EVERY_SECS`].
pub proof fn waits_end_in_time(h: Heartbeat, now: u64, wait: u64)
    requires
        h.due(now) == Beat::Wait(wait),
        h.heard <= now,
        h.pinged <= now,
        now + wait <= u64::MAX,
    ensures
        0 < wait <= PING_EVERY_SECS,
        !(h.due((now + wait) as u64) is Wait),
{
}

// ---------------------------------------------------------------------------
// Reconnecting
// ---------------------------------------------------------------------------

/// The wait before the first try to reconnect.
pub const FIRST_WAIT_SECS: u64 = 1;

/// The longest wait before a try to reconnect.
pub const MAX_WAIT_SECS: u64 = 60;

/// What the client knows of its connection to the server.
#[derive(Debug, Clone, Copy, PartialEq, Eq, Structural)]
pub struct Link {
    /// Whether there has been a tunnel.
    pub was_up: bool,
    /// The wait before the next try to reconnect.
    pub wait: u64,
}

/// What happened to the connection.
#[derive(Debug, Clone, Copy, PartialEq, Eq, Structural)]
pub enum LinkEvent {
    /// A tunnel is established.
    Up,
    /// The tunnel has ended, or was found dead.
    Lost,
    /// Every transport failed to connect.
    Unreachable,
    /// The server turned the client away, or does not speak its language.
    Refused,
}

/// What the client does about it.
#[derive(Debug, Clone, Copy, PartialEq, Eq, Structural)]
pub enum LinkAction {
    /// Use the tunnel.
    Serve,
    /// After this many seconds, try the transports anew.
    Retry { after: u64, attempts: Attempts },
    /// End with the error.
    GiveUp,
}

impl Link {
    /// A client that has just started.
    pub open spec fn fresh() -> Link {
        Link { was_up: false, wait: FIRST_WAIT_SECS }
    }

    /// Whether the link is one that a client gets into.
    pub open spec fn wf(self) -> bool {
        FIRST_WAIT_SECS <= self.wait <= MAX_WAIT_SECS
    }

    /// Whether the client reconnects after `event`: once it has had a tunnel, it
    /// does, unless it was turned away.
    pub open spec fn reconnects(self, event: LinkEvent) -> bool {
        self.was_up && (event is Lost || event is Unreachable)
    }

    /// The link after `event`.
    pub open spec fn after(self, event: LinkEvent) -> Link {
        if event is Up {
            Link { was_up: true, wait: FIRST_WAIT_SECS }
        } else if self.reconnects(event) {
            Link { wait: vstd::math::min(2 * self.wait, MAX_WAIT_SECS as int) as u64, ..self }
        } else {
            self
        }
    }

    /// What the client does about `event`.
    pub open spec fn reaction(self, event: LinkEvent) -> LinkAction {
        if event is Up {
            LinkAction::Serve
        } else if self.reconnects(event) {
            LinkAction::Retry { after: self.wait, attempts: Attempts::fresh() }
        } else {
            LinkAction::GiveUp
        }
    }

    /// A client that has just started.
    pub fn new() -> (l: Link)
        ensures
            l == Link::fresh(),
            l.wf(),
            !l.was_up && l.wait == 1,
    {
        Link { was_up: false, wait: FIRST_WAIT_SECS }
    }

    /// Takes what happened to the connection.
    ///
    /// A tunnel that is established resets the backoff. Once there has been one, a
    /// lost tunnel and a failed try are answered with another try, after a wait
    /// that doubles each time up to [`MAX_WAIT_SECS`]. A first connection that
    /// fails, and being turned away, end the client.
    pub fn on_event(&mut self, event: LinkEvent) -> (r: LinkAction)
        requires
            old(self).wf(),
        ensures
            final(self).wf(),
            *final(self) == old(self).after(event),
            r == old(self).reaction(event),
            event is Up ==> r is Serve && final(self).was_up && final(self).wait == 1,
            old(self).was_up && (event is Lost || event is Unreachable) ==> {
                &&& r matches LinkAction::Retry { after, attempts } && after == old(self).wait
                    && attempts.failed == 0
                &&& final(self).was_up
                &&& final(self).wait == (if 2 * old(self).wait < 60 {
                    2 * old(self).wait
                } else {
                    60
                })
            },
            event is Refused || (!old(self).was_up && !(event is Up)) ==> r is GiveUp
                && *final(self) == *old(self),
    {
        match event {
            LinkEvent::Up => {
                self.was_up = true;
                self.wait = FIRST_WAIT_SECS;
                LinkAction::Serve
            },
            LinkEvent::Refused => LinkAction::GiveUp,
            _ => {
                if !self.was_up {
                    return LinkAction::GiveUp;
                }
                let after: u64 = self.wait;
                self.wait = if 2 * after < MAX_WAIT_SECS {
                    2 * after
                } else {
                    MAX_WAIT_SECS
                };
                LinkAction::Retry { after, attempts: Attempts::new() }
            },
        }
    }
}

/// The link of a client that had a tunnel, lost it, and has failed to reconnect `n`
/// times.
pub open spec fn lost_link(n: nat) -> Link
    decreases n,
{
    if n == 0 {
        Link::fresh().after(LinkEvent::Up).after(LinkEvent::Lost)
    } else {
        lost_link((n - 1) as nat).after(LinkEvent::Unreachable)
    }
}

/// The client never stops trying to reconnect, and backs off exponentially: after
/// `n` failed tries it waits twice as long as before the last one, up to
/// [`MAX_WAIT_SECS`], and then tries the transports from the first one on.
pub proof fn backoff_is_exponential(n: nat)
    ensures
        lost_link(n).wf(),
        lost_link(n).reaction(LinkEvent::Unreachable) == (LinkAction::Retry {
            after: vstd::math::min(FIRST_WAIT_SECS * pow2(n + 1), MAX_WAIT_SECS as int) as u64,
            attempts: Attempts::fresh(),
        }),
    decreases n,
{
    lemma2_to64();
    if n > 0 {
        backoff_is_exponential((n - 1) as nat);
        lemma_pow2_unfold(n + 1);
    }
}

/// A tunnel that is up again is lost without a trace of earlier failures: the next
/// loss is answered with the first wait.
pub proof fn success_resets_the_backoff(l: Link)
    requires
        l.wf(),
    ensures
        l.after(LinkEvent::Up).reaction(LinkEvent::Lost) == (LinkAction::Retry {
            after: FIRST_WAIT_SECS,
            attempts: Attempts::fresh(),
        }),
{
}

} // verus!
