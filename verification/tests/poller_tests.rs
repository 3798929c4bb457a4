use http_broker::poller::{Action, ActionKind, Event, EventKind, Phase, Poller};
use http_broker::publisher::{AttemptState, BrokerEvent, QoS, Topics};
use http_broker::schema::SchemaValidator;
use http_broker::tick::Fetched;
use serde_json::Value;

const WEATHER_SCHEMA: &str = r#"{
  "type": "object",
  "properties": {
    "temperature": { "type": "number" },
    "humidity": { "type": "number" }
  },
  "required": ["temperature", "humidity"]
}"#;

fn weather_poller(interval_secs: u64) -> (Poller, Action) {
    Poller::start(
        SchemaValidator::from_text(WEATHER_SCHEMA).unwrap(),
        "weather-station".to_string(),
        Topics { data: "input".to_string(), error: "input-error".to_string() },
        interval_secs,
    )
}

fn body(text: &str) -> Event {
    Event::Response(Fetched::Body(text.to_string()))
}

#[test]
fn a_poller_starts_with_a_fetch() {
    let (poller, first) = weather_poller(10);
    assert_eq!(poller.phase(), Phase::Fetching);
    assert_eq!(first.kind(), ActionKind::Fetch);
}

#[test]
fn a_tick_runs_from_fetch_to_sleep() {
    let (mut poller, _) = weather_poller(30);

    let reading = r#"{"temperature":25.5,"humidity":50.0}"#;
    match poller.step(body(reading)) {
        Some(Action::Publish(task)) => {
            assert_eq!(task.topic, "input");
            assert_eq!(task.payload, reading.as_bytes());
            assert_eq!(task.qos, QoS::AtLeastOnce);
            assert!(!task.retain);
        }
        other => panic!("asked for {:?}", other),
    }
    assert_eq!(poller.phase(), Phase::Publishing(AttemptState::Built));

    assert!(matches!(poller.step(Event::Submitted), Some(Action::PollSession)));
    assert_eq!(poller.phase(), Phase::Publishing(AttemptState::Connecting { observed: 0 }));

    assert!(matches!(
        poller.step(Event::Session(BrokerEvent::Notice)),
        Some(Action::PollSession)
    ));
    assert_eq!(poller.phase(), Phase::Publishing(AttemptState::Connecting { observed: 1 }));

    assert!(matches!(
        poller.step(Event::Session(BrokerEvent::Notice)),
        Some(Action::Sleep { secs: 30 })
    ));
    assert_eq!(poller.phase(), Phase::Sleeping);

    assert!(matches!(poller.step(Event::Woke), Some(Action::Fetch)));
    assert_eq!(poller.phase(), Phase::Fetching);
}

#[test]
fn a_session_failure_ends_the_attempt_at_once() {
    let (mut poller, _) = weather_poller(10);
    poller.step(Event::Response(Fetched::Failed));
    poller.step(Event::Submitted);
    assert!(matches!(
        poller.step(Event::Session(BrokerEvent::Failure)),
        Some(Action::Sleep { secs: 10 })
    ));
    assert_eq!(poller.phase(), Phase::Sleeping);
}

#[test]
fn a_failed_fetch_is_published_as_an_alert_and_the_next_tick_follows() {
    let (mut poller, _) = weather_poller(10);
    match poller.step(Event::Response(Fetched::Failed)) {
        Some(Action::Publish(task)) => {
            assert_eq!(task.topic, "input-error");
            let alert: Value = serde_json::from_slice(&task.payload).unwrap();
            assert_eq!(alert["deviceId"], "weather-station");
            assert_eq!(alert["errorCode"], "200");
            assert_eq!(alert["errorMessage"], "Failed to get data from sensor");
        }
        other => panic!("asked for {:?}", other),
    }
    poller.step(Event::Submitted);
    poller.step(Event::Session(BrokerEvent::Failure));
    assert!(matches!(poller.step(Event::Woke), Some(Action::Fetch)));
    match poller.step(body("{\"temperature\":1,\"humidity\":2}\n")) {
        Some(Action::Publish(task)) => {
            assert_eq!(task.topic, "input");
            assert_eq!(task.payload, b"{\"temperature\":1,\"humidity\":2}");
        }
        other => panic!("asked for {:?}", other),
    }
}

#[test]
fn a_reading_that_breaks_the_schema_is_published_on_the_error_topic() {
    let (mut poller, _) = weather_poller(10);
    match poller.step(body(r#"{"temperature":"hot"}"#)) {
        Some(Action::Publish(task)) => {
            assert_eq!(task.topic, "input-error");
            let alert: Value = serde_json::from_slice(&task.payload).unwrap();
            assert_eq!(alert["errorCode"], "004");
            let message = alert["errorMessage"].as_str().unwrap();
            assert!(message.contains("is not of type"));
            assert!(message.contains("\"humidity\" is a required property"));
        }
        other => panic!("asked for {:?}", other),
    }
}

#[test]
fn an_event_that_is_not_awaited_changes_nothing() {
    let (mut poller, _) = weather_poller(10);
    assert!(poller.step(Event::Woke).is_none());
    assert!(poller.step(Event::Submitted).is_none());
    assert!(poller.step(Event::Session(BrokerEvent::Notice)).is_none());
    assert_eq!(poller.phase(), Phase::Fetching);

    poller.step(Event::Response(Fetched::Failed));
    assert!(poller.step(Event::Response(Fetched::Failed)).is_none());
    assert!(poller.step(Event::Session(BrokerEvent::Notice)).is_none());
    assert!(poller.step(Event::Woke).is_none());
    assert_eq!(poller.phase(), Phase::Publishing(AttemptState::Built));

    poller.step(Event::Submitted);
    assert!(poller.step(Event::Submitted).is_none());
    assert!(poller.step(Event::Response(Fetched::Failed)).is_none());
    assert_eq!(poller.phase(), Phase::Publishing(AttemptState::Connecting { observed: 0 }));

    poller.step(Event::Session(BrokerEvent::Failure));
    assert!(poller.step(Event::Session(BrokerEvent::Notice)).is_none());
    assert!(poller.step(Event::Submitted).is_none());
    assert_eq!(poller.phase(), Phase::Sleeping);
}

#[test]
fn every_fetch_is_answered_by_one_publish_and_one_sleep() {
    let (mut poller, first) = weather_poller(1);
    let mut asked = vec![first.kind()];
    let reports = [
        body("{}"),
        Event::Woke,
        Event::Submitted,
        Event::Session(BrokerEvent::Notice),
        Event::Submitted,
        Event::Session(BrokerEvent::Notice),
        Event::Session(BrokerEvent::Notice),
        Event::Woke,
        Event::Response(Fetched::Failed),
        Event::Submitted,
        Event::Session(BrokerEvent::Failure),
        Event::Woke,
        body("[]"),
    ];
    for event in reports {
        if let Some(action) = poller.step(event) {
            asked.push(action.kind());
        }
    }
    let times = |kind: ActionKind| asked.iter().filter(|k| **k == kind).count();
    assert_eq!(times(ActionKind::Fetch), 3);
    assert_eq!(times(ActionKind::Publish), 3);
    assert_eq!(times(ActionKind::Sleep), 2);
    assert_eq!(poller.phase(), Phase::Publishing(AttemptState::Built));
}

#[test]
fn kinds_of_events_and_actions() {
    assert_eq!(Event::Response(Fetched::Failed).kind(), EventKind::Response);
    assert_eq!(Event::Submitted.kind(), EventKind::Submitted);
    assert_eq!(
        Event::Session(BrokerEvent::Failure).kind(),
        EventKind::Session(BrokerEvent::Failure)
    );
    assert_eq!(Event::Woke.kind(), EventKind::Woke);
    assert_eq!(Action::Fetch.kind(), ActionKind::Fetch);
    assert_eq!(Action::PollSession.kind(), ActionKind::PollSession);
    assert_eq!(Action::Sleep { secs: 3 }.kind(), ActionKind::Sleep);
}
