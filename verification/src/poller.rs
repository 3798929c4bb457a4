//! The polling cycle: fetch, publish, listen to the broker session, sleep,
//! and again. The poller decides what is done next; the program that drives
//! it does it and reports back.

use crate::publisher::{AttemptState, BrokerEvent, Channel, DeliveryTask, QoS, Topics};
use crate::schema::SchemaValidator;
use crate::tick::{is_dispatch_of, tick, verdict_of, Fetched};
use vstd::prelude::*;
use vstd::utf8::encode_utf8;

verus! {

/// Where the cycle stands.
#[derive(Clone, Copy, Debug, PartialEq, Eq, Structural)]
pub enum Phase {
    /// The device was asked; its response is awaited.
    Fetching,
    /// The tick's one payload is being published; the attempt stands at this
    /// state, which is never `Abandoned`.
    Publishing(AttemptState),
    /// The tick is over; the next begins when the interval has passed.
    Sleeping,
}

/// What the program reports back, without what it carries.
#[derive(Clone, Copy, Debug, PartialEq, Eq, Structural)]
pub enum EventKind {
    /// The request to the device has ended.
    Response,
    /// The payload was handed to the broker client.
    Submitted,
    /// One poll of the broker session has ended.
    Session(BrokerEvent),
    /// The interval has passed.
    Woke,
}

/// What the program is asked to do, without what it carries.
#[derive(Clone, Copy, Debug, PartialEq, Eq, Structural)]
pub enum ActionKind {
    Fetch,
    Publish,
    PollSession,
    Sleep,
}

/// What the program reports back.
#[derive(Debug)]
pub enum Event {
    /// The request to the device has ended, with this outcome.
    Response(Fetched),
    /// The payload was handed to the broker client.
    Submitted,
    /// One poll of the broker session has ended, with this outcome.
    Session(BrokerEvent),
    /// The interval has passed.
    Woke,
}

/// What the program is asked to do.
#[derive(Debug)]
pub enum Action {
    /// Ask the device for a reading.
    Fetch,
    /// Open a broker session and submit the delivery to it, without waiting
    /// for the outcome.
    Publish(DeliveryTask),
    /// Poll the broker session once.
    PollSession,
    /// Let the broker session go, and wait for this many seconds.
    Sleep { secs: u64 },
}

impl Event {
    /// The event without what it carries.
    pub open spec fn spec_kind(&self) -> EventKind {
        match self {
            Event::Response(_) => EventKind::Response,
            Event::Submitted => EventKind::Submitted,
            Event::Session(e) => EventKind::Session(*e),
            Event::Woke => EventKind::Woke,
        }
    }

    /// The event without what it carries.
    #[verifier::when_used_as_spec(spec_kind)]
    pub fn kind(&self) -> (r: EventKind)
        ensures
            r == self.spec_kind(),
    {
        match self {
            Event::Response(_) => EventKind::Response,
            Event::Submitted => EventKind::Submitted,
            Event::Session(e) => EventKind::Session(*e),
            Event::Woke => EventKind::Woke,
        }
    }
}

impl Action {
    /// The action without what it carries.
    pub open spec fn spec_kind(&self) -> ActionKind {
        match self {
            Action::Fetch => ActionKind::Fetch,
            Action::Publish(_) => ActionKind::Publish,
            Action::PollSession => ActionKind::PollSession,
            Action::Sleep { .. } => ActionKind::Sleep,
        }
    }

    /// The action without what it carries.
    #[verifier::when_used_as_spec(spec_kind)]
    pub fn kind(&self) -> (r: ActionKind)
        ensures
            r == self.spec_kind(),
    {
        match self {
            Action::Fetch => ActionKind::Fetch,
            Action::Publish(_) => ActionKind::Publish,
            Action::PollSession => ActionKind::PollSession,
            Action::Sleep { .. } => ActionKind::Sleep,
        }
    }
}

impl Phase {
    /// Whether the phase is one the cycle can stand in.
    pub open spec fn wf(self) -> bool {
        match self {
            Phase::Publishing(attempt) => attempt.wf() && !(attempt is Abandoned),
            _ => true,
        }
    }

    /// The event that the phase awaits, if `event` is of that kind: the phase
    /// that follows, and what is to be done next. An event that the phase
    /// does not await gives `None`.
    ///
    /// A response is followed by the tick's one publish; the submission by
    /// polls of the session, until the attempt is abandoned; that by the
    /// sleep; and waking by the next fetch.
    pub open spec fn react(self, event: EventKind) -> Option<(Phase, ActionKind)> {
        match (self, event) {
            (Phase::Fetching, EventKind::Response) => Some(
                (Phase::Publishing(AttemptState::Built), ActionKind::Publish),
            ),
            (Phase::Publishing(AttemptState::Built), EventKind::Submitted) => Some(
                (Phase::Publishing(AttemptState::Built.submitted()), ActionKind::PollSession),
            ),
            (Phase::Publishing(AttemptState::Connecting { observed }), EventKind::Session(e)) => {
                let attempt = (AttemptState::Connecting { observed }).after(e);
                if attempt is Abandoned {
                    Some((Phase::Sleeping, ActionKind::Sleep))
                } else {
                    Some((Phase::Publishing(attempt), ActionKind::PollSession))
                }
            },
            (Phase::Sleeping, EventKind::Woke) => Some((Phase::Fetching, ActionKind::Fetch)),
            _ => None,
        }
    }
}

/// One step of a cycle: the phase after `event`, and what was asked for, if
/// anything.
pub open spec fn step_of(phase: Phase, event: EventKind) -> (Phase, Seq<ActionKind>) {
    match phase.react(event) {
        Some((next, action)) => (next, seq![action]),
        None => (phase, Seq::empty()),
    }
}

/// A cycle that stands in `phase` and is told `events`, one after the other:
/// the phase it ends in, and all that it asked for on the way.
pub open spec fn run(phase: Phase, events: Seq<EventKind>) -> (Phase, Seq<ActionKind>)
    decreases events.len(),
{
    if events.len() == 0 {
        (phase, Seq::empty())
    } else {
        let (before, asked) = run(phase, events.drop_last());
        let (after, more) = step_of(before, events.last());
        (after, asked + more)
    }
}

/// How often `kind` stands in `actions`.
pub open spec fn count(actions: Seq<ActionKind>, kind: ActionKind) -> nat
    decreases actions.len(),
{
    if actions.len() == 0 {
        0
    } else {
        count(actions.drop_last(), kind) + if actions.last() == kind {
            1nat
        } else {
            0nat
        }
    }
}

/// How many fetches a cycle in this phase has had answered by a publish less
/// than it has made.
pub open spec fn fetches_open(phase: Phase) -> nat {
    if phase is Fetching {
        1
    } else {
        0
    }
}

/// How many publishes a cycle in this phase has had followed by a sleep less
/// than it has made.
pub open spec fn publishes_open(phase: Phase) -> nat {
    if phase is Publishing {
        1
    } else {
        0
    }
}

/// Whatever is reported and in whatever order, a cycle that starts with a
/// fetch publishes exactly once for each fetch and sleeps exactly once after
/// each publish: at any moment every fetch but one still awaited has had its
/// publish, every publish but one still under way has had its sleep, and
/// every sleep but one not yet over has had the next fetch.
pub proof fn lemma_one_publish_for_each_fetch(events: Seq<EventKind>)
    ensures
        run(Phase::Fetching, events).0.wf(),
        ({
            let (phase, asked) = run(Phase::Fetching, events);
            &&& 1 + count(asked, ActionKind::Fetch) == count(asked, ActionKind::Publish)
                + fetches_open(phase)
            &&& count(asked, ActionKind::Publish) == count(asked, ActionKind::Sleep)
                + publishes_open(phase)
            &&& count(asked, ActionKind::Sleep) == count(asked, ActionKind::Fetch) + if phase
                is Sleeping {
                1nat
            } else {
                0nat
            }
        }),
    decreases events.len(),
{
    if events.len() > 0 {
        lemma_one_publish_for_each_fetch(events.drop_last());
        let (before, asked) = run(Phase::Fetching, events.drop_last());
        let (after, more) = step_of(before, events.last());
        if more.len() == 0 {
            assert(asked + more =~= asked);
        } else {
            let all = asked + more;
            assert(all.drop_last() =~= asked);
            assert(all.last() == more[0]);
        }
    }
}

/// The poller of one device.
pub struct Poller {
    validator: SchemaValidator,
    device_id: String,
    topics: Topics,
    interval_secs: u64,
    phase: Phase,
}

/// A poller, as values.
pub struct PollerView {
    /// The schema document.
    pub schema: Seq<char>,
    pub device_id: Seq<char>,
    pub data_topic: Seq<char>,
    pub error_topic: Seq<char>,
    pub interval_secs: u64,
    pub phase: Phase,
}

impl View for Poller {
    type V = PollerView;

    closed spec fn view(&self) -> PollerView {
        PollerView {
            schema: self.validator@,
            device_id: self.device_id@,
            data_topic: self.topics.data@,
            error_topic: self.topics.error@,
            interval_secs: self.interval_secs,
            phase: self.phase,
        }
    }
}

impl PollerView {
    /// The topic behind `channel`.
    pub open spec fn topic(self, channel: Channel) -> Seq<char> {
        match channel {
            Channel::Data => self.data_topic,
            Channel::Error => self.error_topic,
        }
    }

    /// Whether `task` is the delivery of what a tick of this poller
    /// publishes for the response `fetched`: the one dispatch that the
    /// response calls for, on the topic behind its channel, to be delivered
    /// at least once and not retained.
    pub open spec fn publishes(self, fetched: Option<Seq<char>>, task: DeliveryTask) -> bool {
        exists|dispatch: (Channel, Seq<char>)|
            {
                &&& #[trigger] is_dispatch_of(
                    dispatch,
                    verdict_of(self.schema, fetched),
                    self.device_id,
                )
                &&& task.topic@ == self.topic(dispatch.0)
                &&& task.payload@ == encode_utf8(dispatch.1)
                &&& task.qos == QoS::AtLeastOnce
                &&& !task.retain
            }
    }

    /// Whether `action` is what this poller asks for by an action of the kind
    /// `kind`, after it was told `event`: a publish carries the delivery of
    /// what the tick publishes, a sleep the configured interval.
    pub open spec fn asks(self, event: Event, kind: ActionKind, action: Action) -> bool {
        match kind {
            ActionKind::Fetch => action is Fetch,
            ActionKind::Publish => action is Publish && event is Response && self.publishes(
                event->Response_0@,
                action->Publish_0,
            ),
            ActionKind::PollSession => action is PollSession,
            ActionKind::Sleep => action is Sleep && action->secs == self.interval_secs,
        }
    }
}

impl Poller {
    /// A poller for the device `device_id` that is about to make its first
    /// fetch, and the request for it.
    pub fn start(
        validator: SchemaValidator,
        device_id: String,
        topics: Topics,
        interval_secs: u64,
    ) -> (r: (Poller, Action))
        ensures
            r.0@ == (PollerView {
                schema: validator@,
                device_id: device_id@,
                data_topic: topics.data@,
                error_topic: topics.error@,
                interval_secs,
                phase: Phase::Fetching,
            }),
            r.1 is Fetch,
    {
        (
            Poller { validator, device_id, topics, interval_secs, phase: Phase::Fetching },
            Action::Fetch,
        )
    }

    /// Where the cycle stands.
    pub fn phase(&self) -> (r: Phase)
        ensures
            r == self@.phase,
    {
        self.phase
    }

    /// Takes note of `event` and says what is to be done next.
    ///
    /// Where the phase awaits the event, the poller moves on as
    /// `Phase::react` says and asks for the action that goes with it: after a
    /// response for the delivery of what the tick publishes, after the last
    /// poll for a sleep of the configured interval. Any other event changes
    /// nothing and asks for nothing.
    pub fn step(&mut self, event: Event) -> (r: Option<Action>)
        ensures
            match old(self)@.phase.react(event.kind()) {
                None => r is None && final(self)@ == old(self)@,
                Some((phase, kind)) => {
                    &&& final(self)@ == (PollerView { phase, ..old(self)@ })
                    &&& r is Some
                    &&& old(self)@.asks(event, kind, r->Some_0)
                },
            },
            old(self)@.phase.wf() ==> final(self)@.phase.wf(),
    {
        match (self.phase, event) {
            (Phase::Fetching, Event::Response(fetched)) => {
                let dispatch = tick(&self.validator, self.device_id.as_str(), fetched);
                let task = dispatch.delivery(&self.topics);
                self.phase = Phase::Publishing(AttemptState::Built);
                Some(Action::Publish(task))
            },
            (Phase::Publishing(AttemptState::Built), Event::Submitted) => {
                self.phase = Phase::Publishing(AttemptState::Built.submit());
                Some(Action::PollSession)
            },
            (Phase::Publishing(AttemptState::Connecting { observed }), Event::Session(e)) => {
                let attempt = (AttemptState::Connecting { observed }).on_event(e);
                match attempt {
                    AttemptState::Abandoned => {
                        self.phase = Phase::Sleeping;
                        Some(Action::Sleep { secs: self.interval_secs })
                    },
                    _ => {
                        self.phase = Phase::Publishing(attempt);
                        Some(Action::PollSession)
                    },
                }
            },
            (Phase::Sleeping, Event::Woke) => {
                self.phase = Phase::Fetching;
                Some(Action::Fetch)
            },
            _ => None,
        }
    }
}

} // verus!
