use http_broker::publisher::{
    AttemptState, BrokerEvent, Channel, ConnectionSettings, DeliveryTask, QoS, Topics,
};

#[test]
fn delivery_task_carries_the_bytes_of_the_message() {
    let task = DeliveryTask::new("sensors/input", "{\"t\":\"é\"}");
    assert_eq!(task.topic, "sensors/input");
    assert_eq!(task.payload, "{\"t\":\"é\"}".as_bytes().to_vec());
    assert_eq!(task.payload.len(), 10);
    assert_eq!(task.qos, QoS::AtLeastOnce);
    assert!(!task.retain);
}

#[test]
fn topics_are_picked_by_channel() {
    let topics = Topics { data: "in".to_string(), error: "in-error".to_string() };
    assert_eq!(topics.topic(Channel::Data), "in");
    assert_eq!(topics.topic(Channel::Error), "in-error");
}

#[test]
fn connection_settings_fix_what_is_not_configured() {
    let settings = ConnectionSettings::new("aio-mq-dmqtt-frontend", 8883, "token".to_string());
    assert_eq!(settings.client_id, "http-broker-client");
    assert_eq!(settings.host, "aio-mq-dmqtt-frontend");
    assert_eq!(settings.port, 8883);
    assert_eq!(settings.keep_alive_secs, 5);
    assert_eq!(settings.username, "$sat");
    assert_eq!(settings.password, "token");
    assert_eq!(settings.request_capacity, 10);
}

#[test]
fn attempt_is_abandoned_after_two_notices() {
    let state = AttemptState::new();
    assert_eq!(state, AttemptState::Built);
    assert!(!state.is_polling());
    let state = state.submit();
    assert_eq!(state, AttemptState::Connecting { observed: 0 });
    assert!(state.is_polling());
    let state = state.on_event(BrokerEvent::Notice);
    assert_eq!(state, AttemptState::Connecting { observed: 1 });
    assert!(state.is_polling());
    let state = state.on_event(BrokerEvent::Notice);
    assert_eq!(state, AttemptState::Abandoned);
    assert!(!state.is_polling());
}

#[test]
fn attempt_is_abandoned_on_the_first_failure() {
    let state = AttemptState::new().submit().on_event(BrokerEvent::Failure);
    assert_eq!(state, AttemptState::Abandoned);
    let state = AttemptState::new().submit().on_event(BrokerEvent::Notice).on_event(BrokerEvent::Failure);
    assert_eq!(state, AttemptState::Abandoned);
}

#[test]
fn events_outside_a_polled_session_change_nothing() {
    assert_eq!(AttemptState::Built.on_event(BrokerEvent::Notice), AttemptState::Built);
    assert_eq!(AttemptState::Built.on_event(BrokerEvent::Failure), AttemptState::Built);
    assert_eq!(AttemptState::Abandoned.on_event(BrokerEvent::Notice), AttemptState::Abandoned);
    assert_eq!(AttemptState::Abandoned.submit(), AttemptState::Abandoned);
    assert_eq!(
        AttemptState::Connecting { observed: 1 }.submit(),
        AttemptState::Connecting { observed: 1 }
    );
}
