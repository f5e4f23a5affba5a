use esp_iot::rules::apply_rules;
use esp_iot::server::add_rule;
use esp_iot::shared::{get_relay_state, Rule, SensorData, SharedState};

fn word(s: &str) -> heapless::String<20> {
    heapless::String::try_from(s).unwrap()
}

fn rule(condition: &str, threshold: f32, action: &str) -> Rule {
    Rule { condition: word(condition), threshold: threshold.to_bits(), action: word(action) }
}

fn data(temperature: f32, light: f32) -> SensorData {
    SensorData {
        voltage: 3.3f32.to_bits(),
        temperature: temperature.to_bits(),
        light: light.to_bits(),
        distance: 10.0f32.to_bits(),
    }
}

fn state_with(rules: Vec<Rule>, relay: bool) -> SharedState {
    let mut state = SharedState::new(data(20.0, 100.0));
    state.relay_state = relay;
    for r in rules {
        add_rule(&mut state, r).unwrap();
    }
    state
}

#[test]
fn no_rules_keep_relay_state() {
    let off = state_with(vec![], false);
    assert!(!apply_rules(&off, &data(20.0, 100.0)));
    let on = state_with(vec![], true);
    assert!(apply_rules(&on, &data(20.0, 100.0)));
}

#[test]
fn light_high_switches_relay_on() {
    let state = state_with(vec![rule("light_high", 500.0, "relay_on")], false);
    assert!(apply_rules(&state, &data(20.0, 600.0)));
    assert!(!apply_rules(&state, &data(20.0, 400.0)));
    // equal is not above
    assert!(!apply_rules(&state, &data(20.0, 500.0)));
}

#[test]
fn light_low_switches_relay_off() {
    let state = state_with(vec![rule("light_low", 10.0, "relay_off")], true);
    assert!(!apply_rules(&state, &data(20.0, 5.0)));
    assert!(apply_rules(&state, &data(20.0, 50.0)));
}

#[test]
fn temperature_rules() {
    let state = state_with(
        vec![rule("temp_high", 30.0, "relay_on"), rule("temp_low", -5.0, "relay_off")],
        false,
    );
    assert!(apply_rules(&state, &data(35.0, 0.0)));
    let on = state_with(
        vec![rule("temp_high", 30.0, "relay_on"), rule("temp_low", -5.0, "relay_off")],
        true,
    );
    assert!(!apply_rules(&on, &data(-10.0, 0.0)));
    assert!(apply_rules(&on, &data(10.0, 0.0)));
}

#[test]
fn first_matching_rule_wins() {
    let state = state_with(
        vec![rule("light_high", 100.0, "relay_off"), rule("light_high", 50.0, "relay_on")],
        true,
    );
    assert!(!apply_rules(&state, &data(20.0, 200.0)));
    // only the second rule holds
    assert!(apply_rules(&state, &data(20.0, 75.0)));
}

#[test]
fn unknown_action_keeps_relay_and_stops_search() {
    let state = state_with(
        vec![rule("light_high", 100.0, "blink"), rule("light_high", 50.0, "relay_on")],
        false,
    );
    assert!(!apply_rules(&state, &data(20.0, 200.0)));
}

#[test]
fn unknown_condition_never_fires() {
    let state = state_with(vec![rule("humidity_high", 0.0, "relay_on")], false);
    assert!(!apply_rules(&state, &data(20.0, 200.0)));
}

#[test]
fn nan_readings_fire_no_rule() {
    let state = state_with(
        vec![rule("light_high", 0.0, "relay_on"), rule("temp_low", 100.0, "relay_on")],
        false,
    );
    assert!(!apply_rules(&state, &data(f32::NAN, f32::NAN)));
}

#[test]
fn get_relay_state_reads_relay() {
    let mut state = SharedState::new(data(1.0, 1.0));
    assert!(!get_relay_state(&state));
    state.relay_state = true;
    assert!(get_relay_state(&state));
}

#[test]
fn rules_that_cannot_fire_can_be_dropped() {
    let with_idle = state_with(
        vec![
            rule("humidity_high", 0.0, "relay_off"),
            rule("light_high", f32::NAN, "relay_off"),
            rule("temp_high", 30.0, "relay_on"),
        ],
        false,
    );
    let without = state_with(vec![rule("temp_high", 30.0, "relay_on")], false);
    for (t, l) in [(35.0, 10.0), (20.0, 1000.0), (f32::NAN, 5.0)] {
        assert_eq!(apply_rules(&with_idle, &data(t, l)), apply_rules(&without, &data(t, l)));
    }
}
