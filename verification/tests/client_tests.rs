use focus_client_rust::client::{AddressStep, FocusAction, FocusClient, MAX_FAILED_PINGS};
use focus_client_rust::session::LocalStamp;
use focus_client_rust::totem::TotemState;

fn stamp(secs: i64) -> LocalStamp {
    LocalStamp { utc_seconds: secs, nanos: 0, offset_seconds: 0 }
}

#[test]
fn new_client_searches_for_the_totem() {
    let c = FocusClient::new();
    assert!(!c.is_focused);
    assert_eq!(c.address_step(false), AddressStep::Discover);
    assert_eq!(c.address_step(true), AddressStep::UseMock);
}

#[test]
fn known_address_is_polled_directly() {
    let mut c = FocusClient::new();
    c.set_address("http://10.0.0.2:80/status".to_string());
    assert_eq!(c.address_step(false), AddressStep::Known);
}

#[test]
fn three_strikes_lose_the_connection() {
    let mut c = FocusClient::new();
    c.set_address("http://10.0.0.2:80/status".to_string());
    let first = c.register_failed_ping();
    assert_eq!(first.state, TotemState::FocusOff);
    assert_eq!(first.strikes, 1);
    assert!(!first.connection_lost);
    let second = c.register_failed_ping();
    assert_eq!(second.strikes, 2);
    assert!(!second.connection_lost);
    assert!(c.esp32_address.is_some());
    let third = c.register_failed_ping();
    assert_eq!(third.strikes, MAX_FAILED_PINGS);
    assert_eq!(third.state, TotemState::Error);
    assert!(third.connection_lost);
    assert!(c.esp32_address.is_none());
    assert_eq!(c.failed_pings, 0);
}

#[test]
fn a_success_resets_the_strikes() {
    let mut c = FocusClient::new();
    c.set_address("x".to_string());
    c.register_failed_ping();
    c.register_failed_ping();
    assert_eq!(c.record_success(TotemState::FocusOn), TotemState::FocusOn);
    assert_eq!(c.failed_pings, 0);
    let next = c.register_failed_ping();
    assert!(!next.connection_lost);
}

#[test]
fn failures_hold_the_focus_state() {
    let mut c = FocusClient::new();
    assert_eq!(c.react_to_state(TotemState::FocusOn, stamp(1000)), FocusAction::Activate);
    let strike = c.register_failed_ping();
    assert_eq!(strike.state, TotemState::FocusOn);
    assert_eq!(c.react_to_state(strike.state, stamp(1010)), FocusAction::Hold);
}

#[test]
fn focus_follows_the_totem() {
    let mut c = FocusClient::new();
    assert_eq!(c.react_to_state(TotemState::FocusOff, stamp(0)), FocusAction::Hold);
    assert_eq!(c.react_to_state(TotemState::FocusOn, stamp(100)), FocusAction::Activate);
    assert!(c.is_focused);
    assert_eq!(c.session_start.unwrap().utc_seconds, 100);
    assert_eq!(c.react_to_state(TotemState::FocusOn, stamp(200)), FocusAction::Hold);
    assert_eq!(c.session_start.unwrap().utc_seconds, 100);
    assert_eq!(c.react_to_state(TotemState::Error, stamp(300)), FocusAction::Deactivate);
    assert!(!c.is_focused);
    assert_eq!(c.react_to_state(TotemState::FocusOff, stamp(400)), FocusAction::Hold);
}

#[test]
fn ending_a_session_logs_it_once() {
    let mut c = FocusClient::new();
    assert!(c.end_focus_session(stamp(999_000)).is_none());
    c.react_to_state(TotemState::FocusOn, stamp(1_000_000));
    c.react_to_state(TotemState::FocusOff, stamp(1_000_900));
    let rec = c.end_focus_session(stamp(1_001_500)).unwrap();
    assert_eq!(rec.duration_seconds, 1500);
    assert!(!rec.interrupted);
    assert!(c.end_focus_session(stamp(1_002_000)).is_none());
}

#[test]
fn deactivation_hands_over_launched_apps_once() {
    let mut c = FocusClient::new();
    assert!(c.apps_to_deactivate().is_none());
    c.set_active_apps(vec!["code".to_string(), "firefox".to_string()]);
    assert_eq!(c.apps_to_deactivate().unwrap(), vec!["code".to_string(), "firefox".to_string()]);
    assert!(c.apps_to_deactivate().is_none());
}

#[test]
fn shutdown_deactivates_only_when_focused() {
    let mut c = FocusClient::new();
    assert_eq!(c.shutdown_gracefully(), FocusAction::Hold);
    c.react_to_state(TotemState::FocusOn, stamp(10));
    assert_eq!(c.shutdown_gracefully(), FocusAction::Deactivate);
    assert!(!c.is_focused);
    assert!(c.end_focus_session(stamp(20)).is_some());
}
