//! What is handed to the broker, and how long one publish attempt listens to
//! the broker session before it lets go.

use vstd::prelude::*;
use vstd::string::StrSliceExecFns;
use vstd::utf8::encode_utf8;

verus! {

/// Delivery guarantee asked of the broker.
#[derive(Clone, Copy, Debug, PartialEq, Eq, Structural)]
pub enum QoS {
    AtMostOnce,
    AtLeastOnce,
    ExactlyOnce,
}

/// Which of the two topics a payload goes to.
#[derive(Clone, Copy, Debug, PartialEq, Eq, Structural)]
pub enum Channel {
    /// Readings that passed validation.
    Data,
    /// Alerts.
    Error,
}

/// The names of the two topics.
#[derive(Debug)]
pub struct Topics {
    pub data: String,
    pub error: String,
}

impl Topics {
    /// The name of the topic behind `channel`.
    pub open spec fn name(&self, channel: Channel) -> Seq<char> {
        match channel {
            Channel::Data => self.data@,
            Channel::Error => self.error@,
        }
    }

    /// The name of the topic behind `channel`.
    pub fn topic(&self, channel: Channel) -> (r: &String)
        ensures
            r@ == self.name(channel),
    {
        match channel {
            Channel::Data => &self.data,
            Channel::Error => &self.error,
        }
    }
}

/// One payload for one topic.
#[derive(Debug)]
pub struct DeliveryTask {
    pub topic: String,
    pub payload: Vec<u8>,
    pub qos: QoS,
    pub retain: bool,
}

impl DeliveryTask {
    /// The task that publishes `message` on `topic`: the message's bytes as
    /// they are, delivered at least once and not retained.
    pub fn new(topic: &str, message: &str) -> (r: DeliveryTask)
        ensures
            r.topic@ == topic@,
            r.payload@ == encode_utf8(message@),
            r.qos == QoS::AtLeastOnce,
            !r.retain,
    {
        DeliveryTask {
            topic: topic.to_owned(),
            payload: message.as_bytes_vec(),
            qos: QoS::AtLeastOnce,
            retain: false,
        }
    }
}

/// How a broker session is opened for one publish attempt.
#[derive(Debug)]
pub struct ConnectionSettings {
    pub client_id: String,
    pub host: String,
    pub port: u16,
    pub keep_alive_secs: u64,
    pub username: String,
    pub password: String,
    pub request_capacity: usize,
}

impl ConnectionSettings {
    /// The settings for the broker at `host` and `port`, authenticated by
    /// `token`: the client's name, the token's user name, a keep-alive of five
    /// seconds and room for ten requests are fixed.
    pub fn new(host: &str, port: u16, token: String) -> (r: ConnectionSettings)
        ensures
            r.client_id@ == "http-broker-client"@,
            r.host@ == host@,
            r.port == port,
            r.keep_alive_secs == 5,
            r.username@ == "$sat"@,
            r.password@ == token@,
            r.request_capacity == 10,
    {
        ConnectionSettings {
            client_id: "http-broker-client".to_owned(),
            host: host.to_owned(),
            port,
            keep_alive_secs: 5,
            username: "$sat".to_owned(),
            password: token,
            request_capacity: 10,
        }
    }
}

/// What one poll of the broker session gave.
#[derive(Clone, Copy, Debug, PartialEq, Eq, Structural)]
pub enum BrokerEvent {
    /// The session reported something: a packet came in or went out.
    Notice,
    /// The session failed.
    Failure,
}

/// Where one publish attempt stands.
#[derive(Clone, Copy, Debug, PartialEq, Eq, Structural)]
pub enum AttemptState {
    /// The session is set up; nothing was submitted yet.
    Built,
    /// The payload was submitted and the session is polled; `observed`
    /// notices were seen so far.
    Connecting { observed: u8 },
    /// The session was let go. Nothing says that the broker has the payload.
    Abandoned,
}

/// How many notices an attempt waits for.
pub const NOTICES_AWAITED: u8 = 2;

impl AttemptState {
    /// Whether the state is one an attempt can be in: a polled session has
    /// seen fewer notices than it waits for.
    pub open spec fn wf(self) -> bool {
        match self {
            AttemptState::Connecting { observed } => observed < NOTICES_AWAITED,
            _ => true,
        }
    }

    /// The state after the payload was submitted.
    pub open spec fn submitted(self) -> AttemptState {
        match self {
            AttemptState::Built => AttemptState::Connecting { observed: 0 },
            other => other,
        }
    }

    /// The state after one poll gave `event`: a failure ends the attempt, and
    /// so does the last notice awaited. Outside a polled session nothing
    /// changes.
    pub open spec fn after(self, event: BrokerEvent) -> AttemptState {
        match self {
            AttemptState::Connecting { observed } => match event {
                BrokerEvent::Failure => AttemptState::Abandoned,
                BrokerEvent::Notice => if observed >= NOTICES_AWAITED - 1 {
                    AttemptState::Abandoned
                } else {
                    AttemptState::Connecting { observed: (observed + 1) as u8 }
                },
            },
            other => other,
        }
    }

    /// The state after the polls gave `events`, one after the other.
    pub open spec fn after_all(self, events: Seq<BrokerEvent>) -> AttemptState
        decreases events.len(),
    {
        if events.len() == 0 {
            self
        } else {
            self.after_all(events.drop_last()).after(events.last())
        }
    }

    /// A fresh attempt.
    pub fn new() -> (r: AttemptState)
        ensures
            r == AttemptState::Built,
    {
        AttemptState::Built
    }

    /// Records that the payload was submitted: the session is polled from now
    /// on.
    pub fn submit(self) -> (r: AttemptState)
        ensures
            r == self.submitted(),
            self.wf() ==> r.wf(),
    {
        match self {
            AttemptState::Built => AttemptState::Connecting { observed: 0 },
            other => other,
        }
    }

    /// Records what one poll gave.
    pub fn on_event(self, event: BrokerEvent) -> (r: AttemptState)
        ensures
            r == self.after(event),
            self.wf() ==> r.wf(),
    {
        match self {
            AttemptState::Connecting { observed } => match event {
                BrokerEvent::Failure => AttemptState::Abandoned,
                BrokerEvent::Notice => if observed >= NOTICES_AWAITED - 1 {
                    AttemptState::Abandoned
                } else {
                    AttemptState::Connecting { observed: observed + 1 }
                },
            },
            other => other,
        }
    }

    /// Whether the session is still to be polled.
    pub fn is_polling(self) -> (r: bool)
        ensures
            r == (self is Connecting),
    {
        match self {
            AttemptState::Connecting { .. } => true,
            _ => false,
        }
    }
}

/// How many of `events` are notices.
pub open spec fn notices(events: Seq<BrokerEvent>) -> nat
    decreases events.len(),
{
    if events.len() == 0 {
        0
    } else {
        notices(events.drop_last()) + if events.last() == BrokerEvent::Notice {
            1nat
        } else {
            0nat
        }
    }
}

/// Whether one of `events` is a failure.
pub open spec fn has_failure(events: Seq<BrokerEvent>) -> bool {
    exists|k: int| 0 <= k < events.len() && #[trigger] events[k] == BrokerEvent::Failure
}

/// A polled session is let go exactly when a failure or the second notice has
/// come; until then it has counted the notices.
pub proof fn lemma_attempt_ends_on_failure_or_second_notice(events: Seq<BrokerEvent>)
    ensures
        (AttemptState::Connecting { observed: 0 }).after_all(events) == if has_failure(events)
            || notices(events) >= NOTICES_AWAITED {
            AttemptState::Abandoned
        } else {
            AttemptState::Connecting { observed: notices(events) as u8 }
        },
    decreases events.len(),
{
    if events.len() > 0 {
        let front = events.drop_last();
        lemma_attempt_ends_on_failure_or_second_notice(front);
        if has_failure(front) {
            let k = choose|k: int|
                0 <= k < front.len() && #[trigger] front[k] == BrokerEvent::Failure;
            assert(events[k] == BrokerEvent::Failure);
        }
        if events.last() == BrokerEvent::Failure {
            assert(events[events.len() - 1] == BrokerEvent::Failure);
        }
        if has_failure(events) && !has_failure(front) {
            let k = choose|k: int|
                0 <= k < events.len() && #[trigger] events[k] == BrokerEvent::Failure;
            if k < front.len() {
                assert(front[k] == BrokerEvent::Failure);
            }
        }
    }
}

/// An attempt that was let go stays so, whatever is reported after.
pub proof fn lemma_abandoned_is_final(events: Seq<BrokerEvent>)
    ensures
        AttemptState::Abandoned.after_all(events) == AttemptState::Abandoned,
    decreases events.len(),
{
    if events.len() > 0 {
        lemma_abandoned_is_final(events.drop_last());
    }
}

} // verus!
