//! Error alerts: what is published on the error topic in place of a reading.

use crate::clock::Timestamp;
use crate::json::{is_plain, json_document, json_string, lemma_json_string_is_plain, quote};
use crate::schema::{schema_violations, violation_views, SchemaValidator, Violation};
use crate::text::{join, joined, lemma_joined_holds_each_part, occurs_in, texts};
use serde_json::Value;
use vstd::prelude::*;
use vstd::string::StringExecFns;

verus! {

/// The failures that an alert can report. A code, once given, keeps its
/// meaning.
#[derive(Clone, Copy, Debug, PartialEq, Eq, Structural)]
pub enum ErrorCode {
    /// The device endpoint could not be reached, or the request failed.
    DeviceNotResponding,
    /// The response body is no JSON.
    DataNotAvailable,
    /// The reading is JSON but breaks the schema.
    SchemaViolation,
}

impl ErrorCode {
    /// The code as it stands in an alert.
    pub open spec fn text(self) -> Seq<char> {
        match self {
            ErrorCode::DeviceNotResponding => "200"@,
            ErrorCode::DataNotAvailable => "300"@,
            ErrorCode::SchemaViolation => "004"@,
        }
    }

    /// The code as it stands in an alert.
    pub fn as_str(self) -> (r: &'static str)
        ensures
            r@ == self.text(),
    {
        match self {
            ErrorCode::DeviceNotResponding => "200",
            ErrorCode::DataNotAvailable => "300",
            ErrorCode::SchemaViolation => "004",
        }
    }
}

/// The four fields of an alert, as values.
pub struct AlertView {
    pub device_id: Seq<char>,
    pub reading_time: Timestamp,
    pub error_code: Seq<char>,
    pub error_message: Seq<char>,
}

/// An alert's JSON up to the reading time.
pub open spec fn alert_head(device_id: Seq<char>) -> Seq<char> {
    "{\"deviceId\":"@ + json_string(device_id) + ",\"readingTime\":"@
}

/// An alert's JSON after the reading time.
pub open spec fn alert_tail(error_code: Seq<char>, error_message: Seq<char>) -> Seq<char> {
    ",\"errorCode\":"@ + json_string(error_code) + ",\"errorMessage\":"@ + json_string(
        error_message,
    ) + "}"@
}

/// The alert as compact JSON: one object, its members in this order and under
/// these names, every value a JSON string.
pub open spec fn alert_json(
    device_id: Seq<char>,
    reading_time: Seq<char>,
    error_code: Seq<char>,
    error_message: Seq<char>,
) -> Seq<char> {
    alert_head(device_id) + json_string(reading_time) + alert_tail(error_code, error_message)
}

/// An alert's JSON holds no control character, whatever its fields hold: no
/// raw line feed and no tab, so it stays one line.
pub proof fn lemma_alert_is_one_line(
    device_id: Seq<char>,
    reading_time: Seq<char>,
    error_code: Seq<char>,
    error_message: Seq<char>,
)
    ensures
        is_plain(alert_json(device_id, reading_time, error_code, error_message)),
{
    reveal_strlit("{\"deviceId\":");
    reveal_strlit(",\"readingTime\":");
    reveal_strlit(",\"errorCode\":");
    reveal_strlit(",\"errorMessage\":");
    reveal_strlit("}");
    lemma_json_string_is_plain(device_id);
    lemma_json_string_is_plain(reading_time);
    lemma_json_string_is_plain(error_code);
    lemma_json_string_is_plain(error_message);
    assert(is_plain(alert_head(device_id)));
    assert(is_plain(alert_tail(error_code, error_message)));
}

/// What the alert says of one violation.
pub open spec fn violation_line(violation: (Seq<char>, Seq<char>)) -> Seq<char> {
    "JSON schema validation error: "@ + violation.0 + ". Instance path: "@ + violation.1 + "."@
}

/// What the alert says of a list of violations: a line for each, in order,
/// joined by `"; "`.
pub open spec fn violations_message(violations: Seq<(Seq<char>, Seq<char>)>) -> Seq<char> {
    joined(violations.map_values(|v: (Seq<char>, Seq<char>)| violation_line(v)), "; "@)
}

/// The message of an alert on a schema violation holds the message of every
/// violation.
pub proof fn lemma_message_holds_every_violation(violations: Seq<(Seq<char>, Seq<char>)>, i: int)
    requires
        0 <= i < violations.len(),
    ensures
        occurs_in(violations[i].0, violations_message(violations)),
        occurs_in(violation_line(violations[i]), violations_message(violations)),
{
    let lines = violations.map_values(|v: (Seq<char>, Seq<char>)| violation_line(v));
    lemma_joined_holds_each_part(lines, "; "@, i);
    let line = violation_line(violations[i]);
    let message = violations_message(violations);
    let k = choose|k: int|
        0 <= k && k + line.len() <= message.len() && #[trigger] message.subrange(
            k,
            k + line.len(),
        ) == line;
    let text = violations[i].0;
    let lead = "JSON schema validation error: "@;
    let skip = lead.len() as int;
    let at = k + skip;
    assert(line.subrange(skip, skip + text.len()) =~= text);
    assert(message.subrange(at, at + text.len()) =~= message.subrange(k, k + line.len()).subrange(
        skip,
        skip + text.len(),
    ));
}

/// The line that reports one violation.
pub fn describe_violation(violation: &Violation) -> (r: String)
    ensures
        r@ == violation_line(violation@),
{
    let mut line = "JSON schema validation error: ".to_owned();
    line.append(violation.message.as_str());
    line.append(". Instance path: ");
    line.append(violation.instance_path.as_str());
    line.append(".");
    line
}

/// The message of the alert that reports `violations`.
pub fn describe_violations(violations: &Vec<Violation>) -> (r: String)
    ensures
        r@ == violations_message(violation_views(violations@)),
{
    let mut lines: Vec<String> = Vec::new();
    let mut i: usize = 0;
    while i < violations.len()
        invariant
            i <= violations.len(),
            lines@.len() == i,
            forall|j: int|
                0 <= j < i ==> (#[trigger] lines@[j])@ == violation_line(violations@[j]@),
        decreases violations.len() - i,
    {
        lines.push(describe_violation(&violations[i]));
        i += 1;
    }
    proof {
        assert(texts(lines@) =~= violation_views(violations@).map_values(
            |v: (Seq<char>, Seq<char>)| violation_line(v),
        ));
    }
    join(&lines, "; ")
}

/// A structured report of one failed tick.
#[derive(Debug)]
pub struct ErrorAlert {
    device_id: String,
    reading_time: Timestamp,
    error_code: String,
    error_message: String,
}

impl View for ErrorAlert {
    type V = AlertView;

    closed spec fn view(&self) -> AlertView {
        AlertView {
            device_id: self.device_id@,
            reading_time: self.reading_time,
            error_code: self.error_code@,
            error_message: self.error_message@,
        }
    }
}

impl Clone for ErrorAlert {
    fn clone(&self) -> (r: Self)
        ensures
            r@ == self@,
    {
        proof {
            use_type_invariant(&self.reading_time);
        }
        ErrorAlert {
            device_id: self.device_id.clone(),
            reading_time: self.reading_time,
            error_code: self.error_code.clone(),
            error_message: self.error_message.clone(),
        }
    }
}

impl AlertView {
    /// The alert as compact JSON.
    pub open spec fn json(self) -> Seq<char> {
        alert_json(self.device_id, self.reading_time.text(), self.error_code, self.error_message)
    }
}

impl ErrorAlert {
    /// An alert stamped with the current instant.
    pub fn new(device_id: String, error_code: String, error_message: String) -> (r: Self)
        ensures
            built_from(r@, device_id@, error_code@, error_message@),
            r@.reading_time.wf(),
    {
        ErrorAlert::at(Timestamp::now(), device_id, error_code, error_message)
    }

    /// An alert stamped with `reading_time`.
    pub fn at(
        reading_time: Timestamp,
        device_id: String,
        error_code: String,
        error_message: String,
    ) -> (r: Self)
        ensures
            r@ == (AlertView {
                device_id: device_id@,
                reading_time,
                error_code: error_code@,
                error_message: error_message@,
            }),
            r@.reading_time.wf(),
    {
        proof {
            use_type_invariant(&reading_time);
        }
        ErrorAlert { device_id, reading_time, error_code, error_message }
    }

    /// The identity of the device that the alert is about.
    pub fn device_id(&self) -> (r: &String)
        ensures
            r@ == self@.device_id,
    {
        &self.device_id
    }

    /// The instant at which the alert was made.
    pub fn reading_time(&self) -> (r: Timestamp)
        ensures
            r == self@.reading_time,
            r.wf(),
    {
        proof {
            use_type_invariant(&self.reading_time);
        }
        self.reading_time
    }

    /// The alert's code.
    pub fn error_code(&self) -> (r: &String)
        ensures
            r@ == self@.error_code,
    {
        &self.error_code
    }

    /// The alert's message.
    pub fn error_message(&self) -> (r: &String)
        ensures
            r@ == self@.error_message,
    {
        &self.error_message
    }

    /// The alert as compact JSON.
    pub fn to_json(&self) -> (r: String)
        ensures
            r@ == self@.json(),
    {
        let mut out = "{\"deviceId\":".to_owned();
        out.append(quote(self.device_id.as_str()).as_str());
        out.append(",\"readingTime\":");
        out.append(quote(self.reading_time.to_text().as_str()).as_str());
        out.append(",\"errorCode\":");
        out.append(quote(self.error_code.as_str()).as_str());
        out.append(",\"errorMessage\":");
        out.append(quote(self.error_message.as_str()).as_str());
        out.append("}");
        proof {
            assert(out@ =~= self@.json());
        }
        out
    }

    /// The JSON of an alert stamped with `reading_time`.
    pub fn generate_alert_at(
        reading_time: Timestamp,
        device_id: String,
        error_code: String,
        error_message: String,
    ) -> (r: String)
        ensures
            reading_time.wf(),
            r@ == alert_json(device_id@, reading_time.text(), error_code@, error_message@),
    {
        ErrorAlert::at(reading_time, device_id, error_code, error_message).to_json()
    }

    /// The JSON of an alert stamped with the current instant: whatever the
    /// clock says, the text is that of an alert with these three fields.
    pub fn generate_alert(
        device_id: String,
        error_code: String,
        error_message: String,
    ) -> (r: String)
        ensures
            exists|t: Timestamp| #[trigger]
                t.wf() && r@ == alert_json(device_id@, t.text(), error_code@, error_message@),
    {
        let now = Timestamp::now();
        ErrorAlert::generate_alert_at(now, device_id, error_code, error_message)
    }
}

/// What validating an instance answers where an alert is stamped with an
/// instant whose text is `reading_time`: a confirmation where nothing breaks
/// the schema, else the alert that reports every violation.
pub open spec fn validation_answer(
    violations: Seq<(Seq<char>, Seq<char>)>,
    device_id: Seq<char>,
    reading_time: Seq<char>,
) -> Result<Seq<char>, Seq<char>> {
    if violations.len() == 0 {
        Ok("Validation successful!"@)
    } else {
        Err(
            alert_json(
                device_id,
                reading_time,
                ErrorCode::SchemaViolation.text(),
                violations_message(violations),
            ),
        )
    }
}

/// The texts of an answer.
pub open spec fn answer_view(answer: Result<String, String>) -> Result<Seq<char>, Seq<char>> {
    match answer {
        Ok(s) => Ok(s@),
        Err(s) => Err(s@),
    }
}

/// Checks `instance` against the schema; where it breaks the schema, the
/// error is the JSON of an alert for the device `device_id`, stamped with
/// `now`.
pub fn validate_json_at(
    validator: &SchemaValidator,
    instance: &Value,
    device_id: &str,
    now: Timestamp,
) -> (r: Result<String, String>)
    ensures
        now.wf(),
        answer_view(r) == validation_answer(
            schema_violations(validator@, json_document(*instance)),
            device_id@,
            now.text(),
        ),
{
    proof {
        use_type_invariant(&now);
    }
    match validator.validate(instance) {
        Ok(_) => Ok("Validation successful!".to_owned()),
        Err(found) => Err(
            ErrorAlert::generate_alert_at(
                now,
                device_id.to_owned(),
                ErrorCode::SchemaViolation.as_str().to_owned(),
                describe_violations(&found),
            ),
        ),
    }
}

/// Checks `instance` against the schema; where it breaks the schema, the
/// error is the JSON of an alert for the device `device_id`, stamped with the
/// current instant. The clock is read only then.
pub fn validate_json(
    validator: &SchemaValidator,
    instance: &Value,
    device_id: &str,
) -> (r: Result<String, String>)
    ensures
        schema_violations(validator@, json_document(*instance)).len() == 0 ==> answer_view(r)
            == Ok::<Seq<char>, Seq<char>>("Validation successful!"@),
        schema_violations(validator@, json_document(*instance)).len() > 0 ==> exists|
            t: Timestamp,
        | #[trigger]
            t.wf() && answer_view(r) == validation_answer(
                schema_violations(validator@, json_document(*instance)),
                device_id@,
                t.text(),
            ),
{
    match validator.validate(instance) {
        Ok(_) => Ok("Validation successful!".to_owned()),
        Err(found) => {
            let now = Timestamp::now();
            let alert = ErrorAlert::generate_alert_at(
                now,
                device_id.to_owned(),
                ErrorCode::SchemaViolation.as_str().to_owned(),
                describe_violations(&found),
            );
            Err(alert)
        },
    }
}

/// Whether `alert` is one that `ErrorAlert::new` or `ErrorAlert::at` makes of
/// these three inputs, at whatever instant.
pub open spec fn built_from(
    alert: AlertView,
    device_id: Seq<char>,
    error_code: Seq<char>,
    error_message: Seq<char>,
) -> bool {
    alert.device_id == device_id && alert.error_code == error_code && alert.error_message
        == error_message
}

/// Building an alert twice from the same inputs gives two alerts that differ
/// at most in the reading time. Their other fields are the same, and their
/// JSON is the same up to the time's text and the same after it. Built at the
/// same instant they are the same alert, and where the two instants have the
/// same text, their JSON is the same throughout.
pub proof fn lemma_alerts_differ_only_in_reading_time(
    device_id: Seq<char>,
    error_code: Seq<char>,
    error_message: Seq<char>,
    first: AlertView,
    second: AlertView,
)
    requires
        built_from(first, device_id, error_code, error_message),
        built_from(second, device_id, error_code, error_message),
    ensures
        first.device_id == second.device_id,
        first.error_code == second.error_code,
        first.error_message == second.error_message,
        first.json() == alert_head(device_id) + json_string(first.reading_time.text())
            + alert_tail(error_code, error_message),
        second.json() == alert_head(device_id) + json_string(second.reading_time.text())
            + alert_tail(error_code, error_message),
        first.reading_time == second.reading_time ==> first == second,
        first.reading_time.text() == second.reading_time.text() ==> first.json() == second.json(),
{
}

} // verus!
