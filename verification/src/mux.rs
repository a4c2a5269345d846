//! Stream multiplexing over a single encrypted session.
//!
//! Many proxied connections share one Noise tunnel: the control plane and every
//! data connection are substreams of one multiplexed connection. That connection
//! must be driven from one place, so a background task owns it; it accepts
//! inbound substreams and services outbound-open requests, one at a time. The
//! [`Driver`] decides what that task does next.

use vstd::prelude::*;

verus! {

/// What the task does next.
#[derive(Debug, Clone, Copy, PartialEq, Eq, Structural)]
pub enum Step {
    /// Ask the connection for the outbound substream of the request in flight.
    PollOutbound,
    /// Look for the next open request.
    PollRequests,
    /// Ask the connection for inbound substreams. This also pumps all substream
    /// I/O.
    PollInbound,
    /// Sleep until woken.
    Wait,
    /// Close the connection and end.
    Close,
}

/// What came of it.
#[derive(Debug, Clone, Copy, PartialEq, Eq, Structural)]
pub enum Event {
    /// The connection opened the substream, or failed to; either is the answer
    /// to the request in flight.
    Answered,
    /// The connection cannot open the substream yet.
    OutboundPending,
    /// There is a request; it is now in flight.
    Requested,
    /// There is no request yet.
    NoRequest,
    /// Nobody can make requests any more.
    RequestsClosed,
    /// An inbound substream was handed over.
    Accepted,
    /// An inbound substream came, but nobody takes them any more.
    Unwanted,
    /// The connection ended or failed.
    Ended,
    /// There is no inbound substream yet.
    InboundPending,
    /// The task was woken.
    Woken,
}

/// The state of the task that drives the connection.
#[derive(Debug, Clone, Copy, PartialEq, Eq, Structural)]
pub struct Driver {
    /// Whether an open request is in flight.
    pub pending: bool,
    /// What the task does next.
    pub next: Step,
}

/// Whether `event` can come of `step`.
pub open spec fn can_follow(step: Step, event: Event) -> bool {
    match step {
        Step::PollOutbound => event == Event::Answered || event == Event::OutboundPending,
        Step::PollRequests => event == Event::Requested || event == Event::NoRequest || event
            == Event::RequestsClosed,
        Step::PollInbound => event == Event::Accepted || event == Event::Unwanted || event
            == Event::Ended || event == Event::InboundPending,
        Step::Wait => event == Event::Woken,
        Step::Close => false,
    }
}

impl Driver {
    /// What is asked for and what is in flight fit together.
    pub open spec fn wf(self) -> bool {
        &&& self.next == Step::PollOutbound ==> self.pending
        &&& self.next == Step::PollRequests ==> !self.pending
    }

    /// Where a pass begins: with the request in flight if there is one.
    pub open spec fn pass(pending: bool) -> Driver {
        Driver {
            pending,
            next: if pending {
                Step::PollOutbound
            } else {
                Step::PollRequests
            },
        }
    }

    /// The state after `event`.
    pub open spec fn after(self, event: Event) -> Driver {
        match event {
            Event::Answered => Driver { pending: false, next: Step::PollRequests },
            Event::OutboundPending => Driver { next: Step::PollInbound, ..self },
            Event::Requested => Driver::pass(true),
            Event::NoRequest => Driver { next: Step::PollInbound, ..self },
            Event::RequestsClosed => Driver { next: Step::Close, ..self },
            Event::Accepted => Driver::pass(self.pending),
            Event::Unwanted => Driver { next: Step::Close, ..self },
            Event::Ended => Driver { next: Step::Close, ..self },
            Event::InboundPending => Driver { next: Step::Wait, ..self },
            Event::Woken => Driver::pass(self.pending),
        }
    }

    /// A task with no request in flight.
    pub fn new() -> (d: Driver)
        ensures
            d == Driver::pass(false),
            d.wf(),
            !d.pending,
            d.next == Step::PollRequests,
    {
        Driver { pending: false, next: Step::PollRequests }
    }

    /// Takes note of what came of the step.
    pub fn advance(&mut self, event: Event)
        requires
            old(self).wf(),
            can_follow(old(self).next, event),
        ensures
            final(self).wf(),
            *final(self) == old(self).after(event),
            final(self).pending == match event {
                Event::Requested => true,
                Event::Answered => false,
                _ => old(self).pending,
            },
            final(self).next == match event {
                Event::Answered => Step::PollRequests,
                Event::Requested => Step::PollOutbound,
                Event::OutboundPending | Event::NoRequest => Step::PollInbound,
                Event::InboundPending => Step::Wait,
                Event::RequestsClosed | Event::Unwanted | Event::Ended => Step::Close,
                Event::Accepted | Event::Woken => if old(self).pending {
                    Step::PollOutbound
                } else {
                    Step::PollRequests
                },
            },
    {
        match event {
            Event::Answered => {
                self.pending = false;
                self.next = Step::PollRequests;
            },
            Event::OutboundPending | Event::NoRequest => {
                self.next = Step::PollInbound;
            },
            Event::Requested => {
                self.pending = true;
                self.next = Step::PollOutbound;
            },
            Event::RequestsClosed | Event::Unwanted | Event::Ended => {
                self.next = Step::Close;
            },
            Event::InboundPending => {
                self.next = Step::Wait;
            },
            Event::Accepted | Event::Woken => {
                self.next = if self.pending {
                    Step::PollOutbound
                } else {
                    Step::PollRequests
                };
            },
        }
    }
}

// ---------------------------------------------------------------------------
// What holds of every run
// ---------------------------------------------------------------------------

/// The state after `events`.
pub open spec fn driven(events: Seq<Event>) -> Driver
    decreases events.len(),
{
    if events.len() == 0 {
        Driver::pass(false)
    } else {
        driven(events.drop_last()).after(events.last())
    }
}

/// Whether every event can come of the step before it.
pub open spec fn is_run(events: Seq<Event>) -> bool
    decreases events.len(),
{
    events.len() == 0 || {
        &&& is_run(events.drop_last())
        &&& can_follow(driven(events.drop_last()).next, events.last())
    }
}

/// How often `event` occurs.
pub open spec fn count(events: Seq<Event>, event: Event) -> nat
    decreases events.len(),
{
    if events.len() == 0 {
        0
    } else {
        count(events.drop_last(), event) + if events.last() == event {
            1nat
        } else {
            0
        }
    }
}

/// Requests are serviced one at a time and none is answered twice: at every
/// moment all requests taken so far are answered, but for the one in flight.
pub proof fn requests_are_serviced_one_at_a_time(events: Seq<Event>)
    requires
        is_run(events),
    ensures
        driven(events).wf(),
        count(events, Event::Requested) == count(events, Event::Answered) + if driven(
            events,
        ).pending {
            1nat
        } else {
            0
        },
    decreases events.len(),
{
    if events.len() > 0 {
        requests_are_serviced_one_at_a_time(events.drop_last());
    }
}

/// The task only sleeps right after it has asked for inbound substreams and
/// there were none, so substream I/O is pumped before every sleep.
pub proof fn io_is_pumped_before_every_sleep(events: Seq<Event>)
    requires
        is_run(events),
        driven(events).next == Step::Wait,
    ensures
        events.len() > 0,
        events.last() == Event::InboundPending,
        driven(events.drop_last()).next == Step::PollInbound,
{
    requests_are_serviced_one_at_a_time(events);
}

/// A pass begins after every inbound substream and every time the task is woken,
/// with the request in flight if there is one, else by looking for a request; and
/// inbound substreams are asked for only once there is nothing left to do for
/// requests.
pub proof fn requests_come_before_inbound_substreams(events: Seq<Event>)
    requires
        is_run(events),
        events.len() > 0,
    ensures
        events.last() == Event::Accepted || events.last() == Event::Woken ==> driven(events).next
            == if driven(events).pending {
            Step::PollOutbound
        } else {
            Step::PollRequests
        },
        driven(events).next == Step::PollInbound <==> events.last() == Event::OutboundPending
            || events.last() == Event::NoRequest,
        events.last() == Event::OutboundPending ==> driven(events).pending,
        events.last() == Event::NoRequest ==> !driven(events).pending,
        events.last() == Event::Requested ==> driven(events).next == Step::PollOutbound,
        events.last() == Event::Answered ==> driven(events).next == Step::PollRequests,
{
    requests_are_serviced_one_at_a_time(events);
    requests_are_serviced_one_at_a_time(events.drop_last());
}

/// The task ends only when nobody can make requests, nobody takes inbound
/// substreams, or the connection is gone; and then it stays ended.
pub proof fn the_task_ends_for_a_reason(events: Seq<Event>)
    requires
        is_run(events),
        driven(events).next == Step::Close,
    ensures
        events.len() > 0,
        events.last() == Event::RequestsClosed || events.last() == Event::Unwanted || events.last()
            == Event::Ended,
        forall|event: Event| !is_run(#[trigger] events.push(event)),
{
    requests_are_serviced_one_at_a_time(events);
    assert forall|event: Event| !is_run(#[trigger] events.push(event)) by {
        assert(events.push(event).drop_last() =~= events);
    }
}

} // verus!
