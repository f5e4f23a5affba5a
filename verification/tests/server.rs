use esp_iot::server::{
    add_rule, collect_credentials, handle_config_request, handle_relay_request, ConfigSubmission,
    HandlerError, Reply,
};
use esp_iot::shared::{Rule, SensorData, SharedState};

fn state() -> SharedState {
    SharedState::new(SensorData { voltage: 0, temperature: 0, light: 0, distance: 0 })
}

fn rule(n: u32) -> Rule {
    Rule {
        condition: heapless::String::try_from("light_high").unwrap(),
        threshold: n,
        action: heapless::String::try_from("relay_on").unwrap(),
    }
}

#[test]
fn relay_on_and_off() {
    let mut s = state();
    assert_eq!(handle_relay_request(&mut s, b"on"), Ok(Reply::RelayUpdated));
    assert!(s.relay_state);
    assert_eq!(handle_relay_request(&mut s, b"off"), Ok(Reply::RelayUpdated));
    assert!(!s.relay_state);
}

#[test]
fn relay_invalid_state() {
    let mut s = state();
    s.relay_state = true;
    assert_eq!(handle_relay_request(&mut s, b"ON"), Ok(Reply::InvalidState));
    assert_eq!(handle_relay_request(&mut s, b"on "), Ok(Reply::InvalidState));
    assert_eq!(handle_relay_request(&mut s, b""), Ok(Reply::InvalidState));
    assert!(s.relay_state);
}

#[test]
fn relay_invalid_utf8() {
    let mut s = state();
    let body = [0xff, 0x6f];
    let expected = std::str::from_utf8(&body).unwrap_err();
    assert_eq!(handle_relay_request(&mut s, &body), Err(HandlerError::InvalidUtf8(expected)));
    assert!(!s.relay_state);
}

#[test]
fn rules_fill_up_at_eight() {
    let mut s = state();
    for i in 0..8 {
        assert_eq!(add_rule(&mut s, rule(i)), Ok(Reply::RuleAdded));
    }
    assert_eq!(add_rule(&mut s, rule(8)), Err(HandlerError::RulesFull));
    assert_eq!(s.rules.len(), 8);
    assert_eq!(s.rules[7].threshold, 7);
}

#[test]
fn reply_codes_and_messages() {
    assert_eq!(Reply::RelayUpdated.code(), 200);
    assert_eq!(Reply::RelayUpdated.message(), "Relay updated");
    assert_eq!(Reply::InvalidState.code(), 400);
    assert_eq!(Reply::InvalidState.message(), "Invalid state");
    assert_eq!(Reply::RuleAdded.code(), 200);
    assert_eq!(Reply::RuleAdded.message(), "Rule added");
    assert_eq!(Reply::InvalidInput.code(), 400);
    assert_eq!(Reply::InvalidInput.message(), "Invalid input");
    assert_eq!(Reply::Restarting.code(), 303);
    assert_eq!(Reply::Restarting.message(), "Restarting...");
    assert_eq!(HandlerError::SsidTooLong.message(), Some("SSID too long"));
    assert_eq!(HandlerError::PasswordTooLong.message(), Some("Password too long"));
    assert_eq!(HandlerError::RulesFull.message(), Some("Rules full"));
}

fn accepted(body: &[u8]) -> (String, String) {
    match handle_config_request(body) {
        Ok(ConfigSubmission::Accepted(c)) => {
            (c.ssid.as_str().to_string(), c.password.as_str().to_string())
        }
        Ok(ConfigSubmission::Rejected) => panic!("rejected"),
        Err(e) => panic!("error {:?}", e),
    }
}

#[test]
fn config_form_accepted() {
    assert_eq!(accepted(b"ssid=home&password=secret"), ("home".to_string(), "secret".to_string()));
}

#[test]
fn config_form_percent_decoded() {
    assert_eq!(
        accepted(b"ssid=My+Net%21&password=p%40ss%26word&other=1"),
        ("My Net!".to_string(), "p@ss&word".to_string())
    );
}

#[test]
fn config_form_repeated_names_are_joined() {
    assert_eq!(accepted(b"ssid=ab&ssid=cd&password=x&password=y"), ("abcd".to_string(), "xy".to_string()));
}

#[test]
fn config_form_missing_password_is_rejected() {
    assert!(matches!(handle_config_request(b"ssid=home"), Ok(ConfigSubmission::Rejected)));
    assert!(matches!(handle_config_request(b"ssid=&password=x"), Ok(ConfigSubmission::Rejected)));
    assert!(matches!(handle_config_request(b""), Ok(ConfigSubmission::Rejected)));
}

#[test]
fn config_form_ssid_too_long() {
    let body = format!("ssid={}&password=x", "a".repeat(33));
    assert!(matches!(handle_config_request(body.as_bytes()), Err(HandlerError::SsidTooLong)));
    let ok = format!("ssid={}&password=x", "a".repeat(32));
    assert_eq!(accepted(ok.as_bytes()).0.len(), 32);
}

#[test]
fn config_form_password_too_long() {
    let body = format!("ssid=x&password={}", "b".repeat(65));
    assert!(matches!(handle_config_request(body.as_bytes()), Err(HandlerError::PasswordTooLong)));
    let ok = format!("ssid=x&password={}", "b".repeat(64));
    assert_eq!(accepted(ok.as_bytes()).1.len(), 64);
}

#[test]
fn config_form_first_overflow_decides() {
    let body = format!("password={}&ssid={}", "b".repeat(65), "a".repeat(33));
    assert!(matches!(handle_config_request(body.as_bytes()), Err(HandlerError::PasswordTooLong)));
}

#[test]
fn config_form_counts_bytes_not_chars() {
    // 11 two-byte characters: 22 bytes, fits; 17 of them: 34 bytes, does not
    let fits = format!("ssid={}&password=x", "é".repeat(11));
    assert_eq!(accepted(fits.as_bytes()).0, "é".repeat(11));
    let over = format!("ssid={}&password=x", "é".repeat(17));
    assert!(matches!(handle_config_request(over.as_bytes()), Err(HandlerError::SsidTooLong)));
}

#[test]
fn config_form_invalid_utf8() {
    let body = [b's', 0xc3, 0x28];
    match handle_config_request(&body) {
        Err(HandlerError::InvalidUtf8(e)) => {
            assert_eq!(e.to_string(), "invalid utf-8 sequence of 1 bytes from index 1");
            assert_eq!(e, std::str::from_utf8(&body).unwrap_err());
        }
        _ => panic!("expected InvalidUtf8"),
    }
    let truncated = [b'o', 0xe2, 0x82];
    match handle_config_request(&truncated) {
        Err(HandlerError::InvalidUtf8(e)) => {
            assert_eq!(e.to_string(), "incomplete utf-8 byte sequence from index 1");
        }
        _ => panic!("expected InvalidUtf8"),
    }
}

#[test]
fn collect_credentials_from_pairs() {
    let pairs = vec![
        ("ssid".to_string(), "net".to_string()),
        ("x".to_string(), "ignored".to_string()),
        ("password".to_string(), "pw".to_string()),
    ];
    let (s, p) = collect_credentials(&pairs).unwrap();
    assert_eq!(s.as_str(), "net");
    assert_eq!(p.as_str(), "pw");
    let long = vec![("ssid".to_string(), "z".repeat(40))];
    assert!(matches!(collect_credentials(&long), Err(HandlerError::SsidTooLong)));
}

#[test]
fn invalid_utf8_has_no_fixed_text() {
    let e = std::str::from_utf8(&[0xff]).unwrap_err();
    assert_eq!(HandlerError::InvalidUtf8(e).message(), None);
}

#[test]
fn submission_replies() {
    assert_eq!(ConfigSubmission::Rejected.reply(), Reply::InvalidInput);
    match handle_config_request(b"ssid=a&password=b") {
        Ok(s) => assert_eq!(s.reply(), Reply::Restarting),
        Err(_) => panic!("expected a submission"),
    }
}

#[test]
fn relay_follows_last_on_or_off_and_rules_only_grow() {
    let mut s = state();
    assert!(!s.relay_state);
    assert_eq!(handle_relay_request(&mut s, b"on"), Ok(Reply::RelayUpdated));
    assert_eq!(add_rule(&mut s, rule(1)), Ok(Reply::RuleAdded));
    assert_eq!(handle_relay_request(&mut s, b"toggle"), Ok(Reply::InvalidState));
    assert!(handle_relay_request(&mut s, &[0xfe]).is_err());
    assert!(s.relay_state);
    assert_eq!(add_rule(&mut s, rule(2)), Ok(Reply::RuleAdded));
    assert_eq!(handle_relay_request(&mut s, b"off"), Ok(Reply::RelayUpdated));
    assert_eq!(handle_relay_request(&mut s, b"maybe"), Ok(Reply::InvalidState));
    assert!(!s.relay_state);
    assert_eq!(s.rules.len(), 2);
    assert_eq!(s.rules[0].threshold, 1);
    assert_eq!(s.rules[1].threshold, 2);
}
