use http_broker::discovery::{
    after_report, Device, HttpDevice, NextStep, Probe, Round, DEVICE_ENDPOINT, DEVICE_ID,
    ROUND_INTERVAL_SECS,
};

fn device(id: &str, endpoint: &str) -> HttpDevice {
    HttpDevice { id: id.to_string(), endpoint: endpoint.to_string() }
}

#[test]
fn a_device_is_present_on_a_success_status_only() {
    assert!(!Probe::Unreachable.is_online());
    assert!(Probe::Answered { status: 200 }.is_online());
    assert!(Probe::Answered { status: 204 }.is_online());
    assert!(Probe::Answered { status: 299 }.is_online());
    assert!(!Probe::Answered { status: 199 }.is_online());
    assert!(!Probe::Answered { status: 300 }.is_online());
    assert!(!Probe::Answered { status: 404 }.is_online());
    assert!(!Probe::Answered { status: 500 }.is_online());
}

#[test]
fn a_device_is_described_by_its_endpoint_and_identity() {
    let described = Device::describe(&device("424BA8", "http://10.0.0.7:8080"));
    assert_eq!(described.id, "424BA8");
    assert_eq!(
        described.properties,
        vec![
            ("AKRI_HTTP_DEVICE_ENDPOINT".to_string(), "http://10.0.0.7:8080".to_string()),
            ("DEVICE_ID".to_string(), "424BA8".to_string()),
        ]
    );
    assert_eq!(DEVICE_ENDPOINT, "AKRI_HTTP_DEVICE_ENDPOINT");
    assert_eq!(DEVICE_ID, "DEVICE_ID");
}

#[test]
fn a_round_reports_the_present_devices_in_order() {
    let mut round = Round::new();
    round.record(&device("a", "http://a"), Probe::Answered { status: 200 });
    round.record(&device("b", "http://b"), Probe::Unreachable);
    round.record(&device("c", "http://c"), Probe::Answered { status: 503 });
    round.record(&device("d", "http://d"), Probe::Answered { status: 201 });
    let found = round.into_devices();
    assert_eq!(found.len(), 2);
    assert_eq!(found[0].id, "a");
    assert_eq!(found[0].properties[0].1, "http://a");
    assert_eq!(found[1].id, "d");
    assert_eq!(found[1].properties[0].1, "http://d");
}

#[test]
fn a_round_without_present_devices_reports_none() {
    assert!(Round::new().into_devices().is_empty());
    let mut round = Round::new();
    round.record(&device("a", "http://a"), Probe::Unreachable);
    assert!(round.into_devices().is_empty());
}

#[test]
fn a_delivered_report_is_followed_by_the_next_round() {
    assert_eq!(after_report(true), NextStep::Wait { secs: 10 });
    assert_eq!(ROUND_INTERVAL_SECS, 10);
}

#[test]
fn an_undelivered_report_asks_for_registration() {
    assert_eq!(after_report(false), NextStep::Reregister);
}
