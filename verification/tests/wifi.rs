use esp_iot::wifi::{
    access_point_ssid, wifi_start, wifi_step, WifiAction, WifiEvent, WifiMode, WifiPhase,
};

/// Runs the sequence, answering each connection check from `checks` in turn
/// (false once they run out) and every other action with success.
fn run(has_config: bool, checks: &[bool]) -> (Vec<WifiAction>, WifiPhase) {
    let (mut phase, mut action) = wifi_start(has_config);
    let mut actions = vec![action];
    let mut next_check = 0;
    for _ in 0..100 {
        let event = match action {
            WifiAction::Finish(_) | WifiAction::Abort => break,
            WifiAction::CheckConnected => {
                let c = checks.get(next_check).copied().unwrap_or(false);
                next_check += 1;
                WifiEvent::Connected(c)
            }
            _ => WifiEvent::Done,
        };
        let (p, a) = wifi_step(phase, event);
        phase = p;
        action = a;
        actions.push(action);
    }
    (actions, phase)
}

#[test]
fn connects_as_station() {
    let (actions, phase) = run(true, &[false, false, true]);
    assert_eq!(phase, WifiPhase::Ready(WifiMode::Station));
    assert_eq!(
        actions,
        vec![
            WifiAction::CreateDriver,
            WifiAction::SetMode(WifiMode::Station),
            WifiAction::SetStationConfig,
            WifiAction::Start,
            WifiAction::Connect,
            WifiAction::CheckConnected,
            WifiAction::Delay(1000),
            WifiAction::CheckConnected,
            WifiAction::Delay(1000),
            WifiAction::CheckConnected,
            WifiAction::Finish(WifiMode::Station),
        ]
    );
}

#[test]
fn falls_back_to_access_point_after_five_checks() {
    let (actions, phase) = run(true, &[]);
    assert_eq!(phase, WifiPhase::Ready(WifiMode::AccessPoint));
    assert_eq!(actions.iter().filter(|a| **a == WifiAction::CheckConnected).count(), 5);
    assert_eq!(actions.iter().filter(|a| **a == WifiAction::Delay(1000)).count(), 5);
    let tail = &actions[actions.len() - 4..];
    assert_eq!(
        tail,
        &[
            WifiAction::SetMode(WifiMode::AccessPoint),
            WifiAction::SetAccessPointConfig,
            WifiAction::Start,
            WifiAction::Finish(WifiMode::AccessPoint),
        ]
    );
}

#[test]
fn without_config_opens_access_point() {
    let (actions, phase) = run(false, &[true]);
    assert_eq!(phase, WifiPhase::Ready(WifiMode::AccessPoint));
    assert_eq!(
        actions,
        vec![
            WifiAction::CreateDriver,
            WifiAction::SetMode(WifiMode::AccessPoint),
            WifiAction::SetAccessPointConfig,
            WifiAction::Start,
            WifiAction::Finish(WifiMode::AccessPoint),
        ]
    );
    assert_eq!(access_point_ssid(), "ESP32-Config");
}

#[test]
fn error_aborts() {
    let (phase, _) = wifi_start(true);
    let (phase, _) = wifi_step(phase, WifiEvent::Done);
    assert_eq!(wifi_step(phase, WifiEvent::Error), (WifiPhase::Failed, WifiAction::Abort));
    let check = WifiPhase::Checking { done: 2 };
    assert_eq!(wifi_step(check, WifiEvent::Error), (WifiPhase::Failed, WifiAction::Abort));
    assert_eq!(wifi_step(WifiPhase::Failed, WifiEvent::Done), (WifiPhase::Failed, WifiAction::Abort));
}

#[test]
fn sequence_always_ends_within_eighteen_steps() {
    for has_config in [false, true] {
        for n in 0..6 {
            let checks = vec![false; n];
            let (actions, phase) = run(has_config, &checks);
            assert!(matches!(phase, WifiPhase::Ready(_)));
            assert!(actions.len() <= 19);
        }
    }
}
