//! One tick of the bridge: from what the device answered to what is
//! published, and where.

use crate::alert::{alert_json, describe_violations, violations_message, ErrorAlert, ErrorCode};
use crate::clock::Timestamp;
use crate::json::{from_text, json_parse, SyntaxError};
use crate::publisher::{Channel, DeliveryTask, QoS, Topics};
use crate::schema::{schema_violations, violation_views, SchemaValidator, Violation};
use vstd::prelude::*;
use vstd::string::{StrSliceExecFns, StringExecFns};
use vstd::utf8::encode_utf8;

verus! {

/// What the request to the device endpoint gave.
#[derive(Debug)]
pub enum Fetched {
    /// No response: the endpoint was not reached, or the request failed.
    Failed,
    /// The response body, as it came.
    Body(String),
}

impl View for Fetched {
    type V = Option<Seq<char>>;

    open spec fn view(&self) -> Option<Seq<char>> {
        match self {
            Fetched::Failed => None,
            Fetched::Body(body) => Some(body@),
        }
    }
}

/// Why a tick has no reading to pass on.
#[derive(Debug)]
pub enum Failure {
    /// There was no response.
    Unreachable,
    /// The body is no JSON.
    Malformed(SyntaxError),
    /// The reading is JSON and breaks the schema at these points.
    Invalid(Vec<Violation>),
}

/// A failure, as values.
pub enum FailureView {
    Unreachable,
    Malformed((Seq<char>, Seq<char>)),
    Invalid(Seq<(Seq<char>, Seq<char>)>),
}

impl View for Failure {
    type V = FailureView;

    open spec fn view(&self) -> FailureView {
        match self {
            Failure::Unreachable => FailureView::Unreachable,
            Failure::Malformed(e) => FailureView::Malformed(e@),
            Failure::Invalid(found) => FailureView::Invalid(violation_views(found@)),
        }
    }
}

/// What a tick found.
#[derive(Debug)]
pub enum Verdict {
    /// The reading is JSON and meets the schema; it is carried as it is
    /// published.
    Valid(String),
    /// There is no reading that meets the schema.
    Rejected(Failure),
}

/// A verdict, as values.
pub enum VerdictView {
    Valid(Seq<char>),
    Rejected(FailureView),
}

impl View for Verdict {
    type V = VerdictView;

    open spec fn view(&self) -> VerdictView {
        match self {
            Verdict::Valid(body) => VerdictView::Valid(body@),
            Verdict::Rejected(failure) => VerdictView::Rejected(failure@),
        }
    }
}

/// The one thing a tick publishes.
#[derive(Debug)]
pub struct Dispatch {
    pub channel: Channel,
    pub payload: String,
}

impl View for Dispatch {
    type V = (Channel, Seq<char>);

    open spec fn view(&self) -> (Channel, Seq<char>) {
        (self.channel, self.payload@)
    }
}

impl Dispatch {
    /// The task that hands the payload to the broker: on the topic behind the
    /// dispatch's channel, and on no other.
    pub fn delivery(&self, topics: &Topics) -> (r: DeliveryTask)
        ensures
            r.topic@ == topics.name(self.channel),
            r.payload@ == encode_utf8(self.payload@),
            r.qos == QoS::AtLeastOnce,
            !r.retain,
    {
        DeliveryTask::new(topics.topic(self.channel).as_str(), self.payload.as_str())
    }
}

/// `text` without the line feeds at its end.
pub open spec fn without_trailing_newlines(text: Seq<char>) -> Seq<char>
    decreases text.len(),
{
    if text.len() > 0 && text.last() == '\n' {
        without_trailing_newlines(text.drop_last())
    } else {
        text
    }
}

/// Line feeds at the end of a text do not count: with them or without, the
/// text without trailing line feeds is the same.
pub proof fn lemma_trailing_newlines_do_not_count(text: Seq<char>, end: int)
    requires
        0 <= end <= text.len(),
        forall|j: int| end <= j < text.len() ==> text[j] == '\n',
    ensures
        without_trailing_newlines(text) == without_trailing_newlines(text.take(end)),
    decreases text.len() - end,
{
    if end < text.len() {
        assert(text.drop_last().take(end) =~= text.take(end));
        lemma_trailing_newlines_do_not_count(text.drop_last(), end);
    } else {
        assert(text.take(end) =~= text);
    }
}

/// `text` without the line feeds at its end.
pub fn strip_trailing_newlines<'a>(text: &'a str) -> (r: &'a str)
    ensures
        r@ == without_trailing_newlines(text@),
{
    let mut end = text.unicode_len();
    while end > 0 && text.get_char(end - 1) == '\n'
        invariant
            end <= text@.len(),
            forall|j: int| end <= j < text@.len() ==> text@[j] == '\n',
        decreases end,
    {
        end -= 1;
    }
    proof {
        lemma_trailing_newlines_do_not_count(text@, end as int);
    }
    text.substring_char(0, end)
}

/// What a tick finds for a response taken under the schema document `schema`.
pub open spec fn verdict_of(schema: Seq<char>, fetched: Option<Seq<char>>) -> VerdictView {
    match fetched {
        None => VerdictView::Rejected(FailureView::Unreachable),
        Some(raw) => {
            let body = without_trailing_newlines(raw);
            match json_parse(body) {
                Err(e) => VerdictView::Rejected(FailureView::Malformed(e)),
                Ok(document) => if schema_violations(schema, document).len() == 0 {
                    VerdictView::Valid(body)
                } else {
                    VerdictView::Rejected(
                        FailureView::Invalid(schema_violations(schema, document)),
                    )
                },
            }
        },
    }
}

impl FailureView {
    /// The code of the alert that reports the failure.
    pub open spec fn code(self) -> ErrorCode {
        match self {
            FailureView::Unreachable => ErrorCode::DeviceNotResponding,
            FailureView::Malformed(_) => ErrorCode::DataNotAvailable,
            FailureView::Invalid(_) => ErrorCode::SchemaViolation,
        }
    }

    /// The message of the alert that reports the failure.
    pub open spec fn message(self) -> Seq<char> {
        match self {
            FailureView::Unreachable => "Failed to get data from sensor"@,
            FailureView::Malformed(e) => "Failed to parse JSON from sensor: "@ + e.1,
            FailureView::Invalid(found) => violations_message(found),
        }
    }

    /// The alert that reports the failure on the device `device_id`, stamped
    /// with an instant whose text is `reading_time`.
    pub open spec fn alert(self, device_id: Seq<char>, reading_time: Seq<char>) -> Seq<char> {
        alert_json(device_id, reading_time, self.code().text(), self.message())
    }
}

impl Failure {
    /// The code of the alert that reports the failure.
    pub fn code(&self) -> (r: ErrorCode)
        ensures
            r == self@.code(),
    {
        match self {
            Failure::Unreachable => ErrorCode::DeviceNotResponding,
            Failure::Malformed(_) => ErrorCode::DataNotAvailable,
            Failure::Invalid(_) => ErrorCode::SchemaViolation,
        }
    }

    /// The message of the alert that reports the failure.
    pub fn message(&self) -> (r: String)
        ensures
            r@ == self@.message(),
    {
        match self {
            Failure::Unreachable => "Failed to get data from sensor".to_owned(),
            Failure::Malformed(e) => {
                let mut message = "Failed to parse JSON from sensor: ".to_owned();
                message.append(e.detail.as_str());
                message
            },
            Failure::Invalid(found) => describe_violations(found),
        }
    }

    /// The alert that reports the failure, stamped with `now`.
    pub fn alert_at(&self, device_id: &str, now: Timestamp) -> (r: String)
        ensures
            now.wf(),
            r@ == self@.alert(device_id@, now.text()),
    {
        ErrorAlert::generate_alert_at(
            now,
            device_id.to_owned(),
            self.code().as_str().to_owned(),
            self.message(),
        )
    }
}

/// Examines what the device answered: strips the line feeds at the end of the
/// body, parses it, and holds the document against the schema.
pub fn classify(validator: &SchemaValidator, fetched: Fetched) -> (r: Verdict)
    ensures
        r@ == verdict_of(validator@, fetched@),
{
    match fetched {
        Fetched::Failed => Verdict::Rejected(Failure::Unreachable),
        Fetched::Body(raw) => {
            let body = strip_trailing_newlines(raw.as_str()).to_owned();
            match from_text(body.as_str()) {
                Err(e) => Verdict::Rejected(Failure::Malformed(e)),
                Ok(document) => match validator.validate(&document) {
                    Ok(_) => Verdict::Valid(body),
                    Err(found) => Verdict::Rejected(Failure::Invalid(found)),
                },
            }
        },
    }
}

/// Whether `dispatch` is what `verdict` calls for on the device `device_id`.
/// A valid reading goes unchanged to the data topic; a failure goes as an
/// alert to the error topic, stamped with some instant that has a text.
pub open spec fn is_dispatch_of(
    dispatch: (Channel, Seq<char>),
    verdict: VerdictView,
    device_id: Seq<char>,
) -> bool {
    match verdict {
        VerdictView::Valid(body) => dispatch == (Channel::Data, body),
        VerdictView::Rejected(failure) => exists|t: Timestamp| #[trigger]
            t.wf() && dispatch == (Channel::Error, failure.alert(device_id, t.text())),
    }
}

/// What is published for `verdict`, an alert being stamped with `now`.
pub fn resolve_at(verdict: Verdict, device_id: &str, now: Timestamp) -> (r: Dispatch)
    ensures
        now.wf(),
        match verdict@ {
            VerdictView::Valid(body) => r@ == (Channel::Data, body),
            VerdictView::Rejected(failure) => r@ == (
                Channel::Error,
                failure.alert(device_id@, now.text()),
            ),
        },
{
    proof {
        use_type_invariant(&now);
    }
    match verdict {
        Verdict::Valid(body) => Dispatch { channel: Channel::Data, payload: body },
        Verdict::Rejected(failure) => Dispatch {
            channel: Channel::Error,
            payload: failure.alert_at(device_id, now),
        },
    }
}

/// What is published for `verdict`. The clock is read only where an alert is
/// made, and whatever it says, the alert is the one for this failure.
pub fn resolve(verdict: Verdict, device_id: &str) -> (r: Dispatch)
    ensures
        is_dispatch_of(r@, verdict@, device_id@),
{
    match verdict {
        Verdict::Valid(body) => Dispatch { channel: Channel::Data, payload: body },
        rejected => resolve_at(rejected, device_id, Timestamp::now()),
    }
}

/// One tick: examines what the device answered and says what is published.
/// Exactly one payload goes out, to one of the two topics.
pub fn tick(validator: &SchemaValidator, device_id: &str, fetched: Fetched) -> (r: Dispatch)
    ensures
        is_dispatch_of(r@, verdict_of(validator@, fetched@), device_id@),
{
    resolve(classify(validator, fetched), device_id)
}

/// A reading that the schema accepts is published as it is: it goes to the
/// data topic unchanged but for the line feeds at its end, and no alert is
/// made.
pub proof fn lemma_accepted_reading_is_passed_on(
    schema: Seq<char>,
    raw: Seq<char>,
    device_id: Seq<char>,
    dispatch: (Channel, Seq<char>),
)
    requires
        json_parse(without_trailing_newlines(raw)) is Ok,
        schema_violations(schema, json_parse(without_trailing_newlines(raw))->Ok_0).len() == 0,
        is_dispatch_of(dispatch, verdict_of(schema, Some(raw)), device_id),
    ensures
        dispatch == (Channel::Data, without_trailing_newlines(raw)),
{
}

/// A reading that breaks the schema is reported, not passed on: one alert
/// goes to the error topic, under the code for a schema violation, and its
/// message is made of all the violations.
pub proof fn lemma_rejected_reading_is_reported(
    schema: Seq<char>,
    raw: Seq<char>,
    device_id: Seq<char>,
    dispatch: (Channel, Seq<char>),
)
    requires
        json_parse(without_trailing_newlines(raw)) is Ok,
        schema_violations(schema, json_parse(without_trailing_newlines(raw))->Ok_0).len() > 0,
        is_dispatch_of(dispatch, verdict_of(schema, Some(raw)), device_id),
    ensures
        exists|t: Timestamp| #[trigger]
            t.wf() && dispatch == (
                Channel::Error,
                alert_json(
                    device_id,
                    t.text(),
                    "004"@,
                    violations_message(
                        schema_violations(
                            schema,
                            json_parse(without_trailing_newlines(raw))->Ok_0,
                        ),
                    ),
                ),
            ),
{
    let found = schema_violations(schema, json_parse(without_trailing_newlines(raw))->Ok_0);
    let failure = FailureView::Invalid(found);
    let t = choose|t: Timestamp| #[trigger]
        t.wf() && dispatch == (Channel::Error, failure.alert(device_id, t.text()));
    assert(t.wf());
}

/// A body that is no JSON is reported: one alert goes to the error topic,
/// under the code for data that is not available, and nothing goes to the data
/// topic.
pub proof fn lemma_malformed_body_is_reported(
    schema: Seq<char>,
    raw: Seq<char>,
    device_id: Seq<char>,
    dispatch: (Channel, Seq<char>),
)
    requires
        json_parse(without_trailing_newlines(raw)) is Err,
        is_dispatch_of(dispatch, verdict_of(schema, Some(raw)), device_id),
    ensures
        dispatch.0 == Channel::Error,
        exists|t: Timestamp| #[trigger]
            t.wf() && dispatch.1 == alert_json(
                device_id,
                t.text(),
                "300"@,
                "Failed to parse JSON from sensor: "@ + json_parse(
                    without_trailing_newlines(raw),
                )->Err_0.1,
            ),
{
    let failure = FailureView::Malformed(json_parse(without_trailing_newlines(raw))->Err_0);
    let t = choose|t: Timestamp| #[trigger]
        t.wf() && dispatch == (Channel::Error, failure.alert(device_id, t.text()));
    assert(t.wf());
}

/// A failed fetch is reported: one alert goes to the error topic, under the
/// code for a device that does not respond.
pub proof fn lemma_failed_fetch_is_reported(
    schema: Seq<char>,
    device_id: Seq<char>,
    dispatch: (Channel, Seq<char>),
)
    requires
        is_dispatch_of(dispatch, verdict_of(schema, None), device_id),
    ensures
        dispatch.0 == Channel::Error,
        exists|t: Timestamp| #[trigger]
            t.wf() && dispatch.1 == alert_json(
                device_id,
                t.text(),
                "200"@,
                "Failed to get data from sensor"@,
            ),
{
    let failure = FailureView::Unreachable;
    let t = choose|t: Timestamp| #[trigger]
        t.wf() && dispatch == (Channel::Error, failure.alert(device_id, t.text()));
    assert(t.wf());
}

} // verus!
