use http_broker::json::parse_json_schema;
use http_broker::clock::Timestamp;
use http_broker::tick::{
    classify, resolve, resolve_at, strip_trailing_newlines, tick, Failure, Fetched, Verdict,
};
use http_broker::publisher::{Channel, QoS, Topics};
use http_broker::schema::SchemaValidator;
use serde_json::Value;

const WEATHER_SCHEMA: &str = r#"{
  "type": "object",
  "properties": {
    "temperature": { "type": "number" },
    "humidity": { "type": "number" }
  },
  "required": ["temperature", "humidity"]
}"#;

fn weather_validator() -> SchemaValidator {
    SchemaValidator::compile(&parse_json_schema(WEATHER_SCHEMA).unwrap()).unwrap()
}

fn alert_fields(payload: &str) -> (String, String, String) {
    let parsed: Value = serde_json::from_str(payload).unwrap();
    assert_eq!(parsed.as_object().unwrap().len(), 4);
    assert!(chrono::DateTime::parse_from_rfc3339(parsed["readingTime"].as_str().unwrap()).is_ok());
    (
        parsed["deviceId"].as_str().unwrap().to_string(),
        parsed["errorCode"].as_str().unwrap().to_string(),
        parsed["errorMessage"].as_str().unwrap().to_string(),
    )
}

#[test]
fn test_read_sensor() {
    let body = r#"{"temperature": 25.5, "humidity": 50.0}"#;
    let topics = Topics {
        data: "cvx/business_unit/facility/gateway_id/device_id/weather-station/input".to_string(),
        error: "cvx/business_unit/facility/gateway_id/device_id/weather-station/input-error"
            .to_string(),
    };
    let device_id = "weater-station";
    let validator = weather_validator();

    let dispatch = tick(&validator, device_id, Fetched::Body(body.to_string()));
    assert_eq!(dispatch.channel, Channel::Data);
    assert_eq!(dispatch.payload, body);

    let task = dispatch.delivery(&topics);
    assert_eq!(
        task.topic,
        "cvx/business_unit/facility/gateway_id/device_id/weather-station/input"
    );
    assert_eq!(task.payload, body.as_bytes());
    assert_eq!(task.qos, QoS::AtLeastOnce);
    assert!(!task.retain);
}

#[test]
fn valid_reading_goes_to_the_data_topic_unchanged() {
    let validator = weather_validator();
    let body = r#"{"temperature":25.5,"humidity":50.0}"#;
    let dispatch = tick(&validator, "weather-station", Fetched::Body(body.to_string()));
    assert_eq!(dispatch.channel, Channel::Data);
    assert_eq!(dispatch.payload, body);
}

#[test]
fn trailing_line_feeds_are_stripped_and_nothing_else() {
    let validator = weather_validator();
    let body = "  {\"temperature\":25.5,\n \"humidity\":50.0} \n\n\n";
    let dispatch = tick(&validator, "weather-station", Fetched::Body(body.to_string()));
    assert_eq!(dispatch.channel, Channel::Data);
    assert_eq!(dispatch.payload, "  {\"temperature\":25.5,\n \"humidity\":50.0} ");

    let crlf = "{\"temperature\":1,\"humidity\":2}\r\n";
    let dispatch = tick(&validator, "weather-station", Fetched::Body(crlf.to_string()));
    assert_eq!(dispatch.channel, Channel::Data);
    assert_eq!(dispatch.payload, "{\"temperature\":1,\"humidity\":2}\r");
}

#[test]
fn reading_that_breaks_the_schema_becomes_one_alert() {
    let validator = weather_validator();
    let dispatch =
        tick(&validator, "weather-station", Fetched::Body(r#"{"temperature":"hot"}"#.to_string()));
    assert_eq!(dispatch.channel, Channel::Error);
    let (device, code, message) = alert_fields(&dispatch.payload);
    assert_eq!(device, "weather-station");
    assert_eq!(code, "004");
    assert!(message.contains(r#""hot" is not of type "number""#));
    assert!(message.contains(r#""humidity" is a required property"#));
    assert_eq!(
        message,
        "JSON schema validation error: \"hot\" is not of type \"number\". Instance path: /temperature.; \
         JSON schema validation error: \"humidity\" is a required property. Instance path: ."
    );
}

#[test]
fn body_that_is_no_json_becomes_one_alert() {
    let validator = weather_validator();
    let dispatch = tick(&validator, "weather-station", Fetched::Body("<html>".to_string()));
    assert_eq!(dispatch.channel, Channel::Error);
    let (device, code, message) = alert_fields(&dispatch.payload);
    assert_eq!(device, "weather-station");
    assert_eq!(code, "300");
    assert_eq!(
        message,
        "Failed to parse JSON from sensor: Error(\"expected value\", line: 1, column: 1)"
    );
}

#[test]
fn empty_body_is_no_json() {
    let validator = weather_validator();
    let dispatch = tick(&validator, "ws", Fetched::Body("\n".to_string()));
    assert_eq!(dispatch.channel, Channel::Error);
    let (_, code, message) = alert_fields(&dispatch.payload);
    assert_eq!(code, "300");
    assert_eq!(
        message,
        "Failed to parse JSON from sensor: Error(\"EOF while parsing a value\", line: 1, column: 0)"
    );
}

#[test]
fn failed_fetch_becomes_one_alert() {
    let validator = weather_validator();
    let dispatch = tick(&validator, "weather-station", Fetched::Failed);
    assert_eq!(dispatch.channel, Channel::Error);
    let (device, code, message) = alert_fields(&dispatch.payload);
    assert_eq!(device, "weather-station");
    assert_eq!(code, "200");
    assert_eq!(message, "Failed to get data from sensor");
}

#[test]
fn a_failed_tick_does_not_stop_the_next() {
    let validator = weather_validator();
    let first = tick(&validator, "ws", Fetched::Failed);
    assert_eq!(first.channel, Channel::Error);
    let second =
        tick(&validator, "ws", Fetched::Body(r#"{"temperature":1,"humidity":2}"#.to_string()));
    assert_eq!(second.channel, Channel::Data);
    assert_eq!(second.payload, r#"{"temperature":1,"humidity":2}"#);
}

#[test]
fn classify_tells_the_four_outcomes_apart() {
    let validator = weather_validator();
    assert!(matches!(
        classify(&validator, Fetched::Failed),
        Verdict::Rejected(Failure::Unreachable)
    ));
    match classify(&validator, Fetched::Body("{".to_string())) {
        Verdict::Rejected(Failure::Malformed(e)) => {
            assert_eq!(e.message, "EOF while parsing an object at line 1 column 1");
            assert_eq!(e.detail, "Error(\"EOF while parsing an object\", line: 1, column: 1)");
        }
        other => panic!("classified otherwise, as {:?}", other),
    }
    match classify(&validator, Fetched::Body("{}\n".to_string())) {
        Verdict::Rejected(Failure::Invalid(found)) => {
            assert_eq!(found.len(), 2);
            assert_eq!(found[0].message, r#""temperature" is a required property"#);
            assert_eq!(found[1].message, r#""humidity" is a required property"#);
        }
        other => panic!("classified otherwise, as {:?}", other),
    }
    match classify(&validator, Fetched::Body("{\"temperature\":0,\"humidity\":0}\n".to_string())) {
        Verdict::Valid(body) => assert_eq!(body, "{\"temperature\":0,\"humidity\":0}"),
        other => panic!("classified otherwise, as {:?}", other),
    }
}

#[test]
fn an_alert_is_delivered_on_the_error_topic_only() {
    let topics = Topics { data: "in".to_string(), error: "in-error".to_string() };
    let at = Timestamp::new(0, 0).unwrap();
    let dispatch = resolve_at(Verdict::Rejected(Failure::Unreachable), "ws", at);
    let task = dispatch.delivery(&topics);
    assert_eq!(task.topic, "in-error");
    assert_eq!(task.payload, dispatch.payload.as_bytes());
    assert_eq!(task.qos, QoS::AtLeastOnce);
    assert!(!task.retain);
}

#[test]
fn failure_codes_and_messages() {
    assert_eq!(Failure::Unreachable.code().as_str(), "200");
    assert_eq!(Failure::Unreachable.message(), "Failed to get data from sensor");
    assert_eq!(Failure::Invalid(Vec::new()).code().as_str(), "004");
    let at = Timestamp::new(1_431_648_000, 0).unwrap();
    assert_eq!(
        Failure::Unreachable.alert_at("ws", at),
        r#"{"deviceId":"ws","readingTime":"2015-05-15T00:00:00Z","errorCode":"200","errorMessage":"Failed to get data from sensor"}"#
    );
}

#[test]
fn resolve_at_stamps_the_alert_with_the_given_instant() {
    let at = Timestamp::new(1_431_648_000, 0).unwrap();
    let dispatch = resolve_at(Verdict::Rejected(Failure::Unreachable), "ws", at);
    assert_eq!(dispatch.channel, Channel::Error);
    assert_eq!(
        dispatch.payload,
        r#"{"deviceId":"ws","readingTime":"2015-05-15T00:00:00Z","errorCode":"200","errorMessage":"Failed to get data from sensor"}"#
    );
    let passed = resolve_at(Verdict::Valid("{}".to_string()), "ws", at);
    assert_eq!(passed.channel, Channel::Data);
    assert_eq!(passed.payload, "{}");
    let passed = resolve(Verdict::Valid("[1]".to_string()), "ws");
    assert_eq!(passed.channel, Channel::Data);
    assert_eq!(passed.payload, "[1]");
}

#[test]
fn invalid_schema_leaves_nothing_to_tick_with() {
    let not_json = parse_json_schema("{\"type\": \"object\"");
    assert!(not_json.is_err());
    let not_a_schema = parse_json_schema(r#"{"type": 12}"#).unwrap();
    let compiled = SchemaValidator::compile(&not_a_schema);
    assert!(compiled.is_err());
    assert_eq!(
        compiled.err().unwrap(),
        "12 is not valid under any of the schemas listed in the 'anyOf' keyword"
    );
}

#[test]
fn line_feeds_are_stripped_at_the_end_only() {
    for text in ["", "\n", "\n\n\n", "a", "a\n", "a\n\n", "\na", "a\nb\n", "a \n", "a\r\n", "é\n", "a\n \n"]
    {
        assert_eq!(strip_trailing_newlines(text), text.trim_end_matches('\n'), "{:?}", text);
    }
    assert_eq!(strip_trailing_newlines("{}\n\n"), "{}");
    assert_eq!(strip_trailing_newlines("{}\r\n"), "{}\r");
}
