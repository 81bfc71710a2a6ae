use focus_client_rust::mock::MockTotem;
use focus_client_rust::totem::{parse_totem_state, state_from_response, TotemPollError, TotemState};

#[test]
fn parses_focus_on() {
    assert_eq!(parse_totem_state("FOCUS_ON").unwrap(), TotemState::FocusOn);
}

#[test]
fn parses_focus_off_with_surrounding_whitespace() {
    assert_eq!(parse_totem_state("  FOCUS_OFF\r\n").unwrap(), TotemState::FocusOff);
    assert_eq!(parse_totem_state("\u{a0}\tFOCUS_ON \u{3000}").unwrap(), TotemState::FocusOn);
}

#[test]
fn rejects_unknown_payload_with_trimmed_text() {
    match parse_totem_state("  focus_on \n") {
        Err(TotemPollError::InvalidPayload(p)) => assert_eq!(p, "focus_on"),
        other => panic!("unexpected {:?}", other),
    }
    match parse_totem_state("") {
        Err(TotemPollError::InvalidPayload(p)) => assert_eq!(p, ""),
        other => panic!("unexpected {:?}", other),
    }
}

#[test]
fn success_codes_parse_the_body() {
    assert_eq!(state_from_response(200, "FOCUS_ON\n").unwrap(), TotemState::FocusOn);
    assert_eq!(state_from_response(204, "FOCUS_OFF").unwrap(), TotemState::FocusOff);
    assert_eq!(state_from_response(299, "FOCUS_OFF").unwrap(), TotemState::FocusOff);
}

#[test]
fn other_codes_are_http_errors() {
    match state_from_response(404, "FOCUS_ON") {
        Err(TotemPollError::HttpStatus(c)) => assert_eq!(c, 404),
        other => panic!("unexpected {:?}", other),
    }
    match state_from_response(300, "FOCUS_ON") {
        Err(TotemPollError::HttpStatus(c)) => assert_eq!(c, 300),
        other => panic!("unexpected {:?}", other),
    }
    match state_from_response(199, "FOCUS_ON") {
        Err(TotemPollError::HttpStatus(c)) => assert_eq!(c, 199),
        other => panic!("unexpected {:?}", other),
    }
}

#[test]
fn error_messages() {
    assert_eq!(TotemPollError::HttpStatus(404).message(), "HTTP status 404 Not Found");
    assert_eq!(TotemPollError::HttpStatus(503).message(), "HTTP status 503 Service Unavailable");
    assert_eq!(TotemPollError::HttpStatus(599).message(), "HTTP status 599 <unknown status code>");
    assert_eq!(
        TotemPollError::InvalidPayload("a\"b".to_string()).message(),
        "unexpected status payload: \"a\\\"b\""
    );
    assert_eq!(TotemPollError::Request("timed out".to_string()).message(), "timed out");
}

#[test]
fn mock_totem_answers_and_toggles() {
    let mut mock = MockTotem::new();
    assert_eq!(mock.status(), "FOCUS_ON");
    assert_eq!(parse_totem_state(mock.status()).unwrap(), TotemState::FocusOn);
    assert_eq!(mock.toggle(), "FOCUS_OFF");
    assert_eq!(parse_totem_state(mock.status()).unwrap(), TotemState::FocusOff);
    assert_eq!(mock.toggle(), "FOCUS_ON");
}
