//! The Wi-Fi bring-up sequence: join the configured network as a station,
//! checking up to five times, one second apart, whether the connection is
//! up; without a configuration, or when the connection does not come up,
//! open the access point `ESP32-Config` instead. Any failing driver call
//! ends the sequence with an error.
//!
//! The sequence is a state machine: the caller performs each action on the
//! Wi-Fi driver and hands back what came of it.

use vstd::prelude::*;

verus! {

/// How many times the connection is checked before giving up on it.
pub const CONNECT_ATTEMPTS: u8 = 5;

/// Milliseconds to wait between two connection checks.
pub const CONNECT_RETRY_DELAY_MS: u32 = 1000;

/// The mode the driver ends in.
#[derive(Debug, Clone, Copy, PartialEq, Eq, Structural)]
pub enum WifiMode {
    Station,
    AccessPoint,
}

/// Where the sequence stands: which action it waits on.
#[derive(Debug, Clone, Copy, PartialEq, Eq, Structural)]
pub enum WifiPhase {
    /// Creating the driver; a configuration was given or not.
    Creating { has_config: bool },
    SettingStationMode,
    SettingStationConfig,
    StartingStation,
    Connecting,
    /// Checking the connection, after `done` earlier checks.
    Checking { done: u8 },
    /// Waiting before the next check, after `done + 1` checks.
    Waiting { done: u8 },
    SettingAccessPointMode,
    SettingAccessPointConfig,
    StartingAccessPoint,
    /// The sequence is over and the driver is up in this mode.
    Ready(WifiMode),
    /// A driver call failed; the sequence is over.
    Failed,
}

/// What the caller does next.
#[derive(Debug, Clone, Copy, PartialEq, Eq, Structural)]
pub enum WifiAction {
    /// Create the driver.
    CreateDriver,
    /// Put the driver in this mode.
    SetMode(WifiMode),
    /// Give the driver the configured network name and password.
    SetStationConfig,
    /// Give the driver the access point configuration (network name
    /// `ESP32-Config`).
    SetAccessPointConfig,
    /// Start the driver.
    Start,
    /// Connect to the configured network.
    Connect,
    /// Ask whether the connection is up.
    CheckConnected,
    /// Wait this many milliseconds.
    Delay(u32),
    /// Nothing is left to do: the driver is up in this mode.
    Finish(WifiMode),
    /// Nothing is left to do: return the driver's error.
    Abort,
}

/// What came of the last action.
#[derive(Debug, Clone, Copy, PartialEq, Eq, Structural)]
pub enum WifiEvent {
    /// The action succeeded.
    Done,
    /// The connection check succeeded with this answer.
    Connected(bool),
    /// The action failed.
    Error,
}

/// Whether the sequence is over.
pub open spec fn is_final(phase: WifiPhase) -> bool {
    phase is Ready || phase is Failed
}

/// The phase and the action that the sequence starts with.
pub open spec fn spec_start(has_config: bool) -> (WifiPhase, WifiAction) {
    (WifiPhase::Creating { has_config }, WifiAction::CreateDriver)
}

/// One step: from `phase`, on `event`, the next phase and the action to
/// perform.
pub open spec fn spec_step(phase: WifiPhase, event: WifiEvent) -> (WifiPhase, WifiAction) {
    match phase {
        WifiPhase::Ready(m) => (phase, WifiAction::Finish(m)),
        WifiPhase::Failed => (phase, WifiAction::Abort),
        _ => if event == WifiEvent::Error {
            (WifiPhase::Failed, WifiAction::Abort)
        } else {
            match phase {
                WifiPhase::Creating { has_config } => if has_config {
                    (WifiPhase::SettingStationMode, WifiAction::SetMode(WifiMode::Station))
                } else {
                    (WifiPhase::SettingAccessPointMode, WifiAction::SetMode(WifiMode::AccessPoint))
                },
                WifiPhase::SettingStationMode => (
                    WifiPhase::SettingStationConfig,
                    WifiAction::SetStationConfig,
                ),
                WifiPhase::SettingStationConfig => (WifiPhase::StartingStation, WifiAction::Start),
                WifiPhase::StartingStation => (WifiPhase::Connecting, WifiAction::Connect),
                WifiPhase::Connecting => (
                    WifiPhase::Checking { done: 0 },
                    WifiAction::CheckConnected,
                ),
                WifiPhase::Checking { done } => if event == WifiEvent::Connected(true) {
                    (WifiPhase::Ready(WifiMode::Station), WifiAction::Finish(WifiMode::Station))
                } else {
                    (WifiPhase::Waiting { done }, WifiAction::Delay(CONNECT_RETRY_DELAY_MS))
                },
                WifiPhase::Waiting { done } => if done < CONNECT_ATTEMPTS - 1 {
                    (WifiPhase::Checking { done: (done + 1) as u8 }, WifiAction::CheckConnected)
                } else {
                    (WifiPhase::SettingAccessPointMode, WifiAction::SetMode(WifiMode::AccessPoint))
                },
                WifiPhase::SettingAccessPointMode => (
                    WifiPhase::SettingAccessPointConfig,
                    WifiAction::SetAccessPointConfig,
                ),
                WifiPhase::SettingAccessPointConfig => (
                    WifiPhase::StartingAccessPoint,
                    WifiAction::Start,
                ),
                _ => (WifiPhase::Ready(WifiMode::AccessPoint), WifiAction::Finish(WifiMode::AccessPoint)),
            }
        },
    }
}

/// The phases that the sequence can stand in: a check count below the
/// number of attempts.
pub open spec fn phase_valid(phase: WifiPhase) -> bool {
    match phase {
        WifiPhase::Checking { done } => done < CONNECT_ATTEMPTS,
        WifiPhase::Waiting { done } => done < CONNECT_ATTEMPTS,
        _ => true,
    }
}

/// The name of the access point that the device opens.
pub fn access_point_ssid() -> (s: &'static str)
    ensures
        s@ == "ESP32-Config"@,
{
    "ESP32-Config"
}

/// Starts the sequence, with or without a network to join.
pub fn wifi_start(has_config: bool) -> (res: (WifiPhase, WifiAction))
    ensures
        res == spec_start(has_config),
        phase_valid(res.0),
{
    (WifiPhase::Creating { has_config }, WifiAction::CreateDriver)
}

/// One step of the sequence: the next phase and the action to perform,
/// given what came of the last action.
pub fn wifi_step(phase: WifiPhase, event: WifiEvent) -> (res: (WifiPhase, WifiAction))
    ensures
        res == spec_step(phase, event),
        phase_valid(phase) ==> phase_valid(res.0),
{
    match phase {
        WifiPhase::Ready(m) => return (phase, WifiAction::Finish(m)),
        WifiPhase::Failed => return (phase, WifiAction::Abort),
        _ => {},
    }
    if event == WifiEvent::Error {
        return (WifiPhase::Failed, WifiAction::Abort);
    }
    match phase {
        WifiPhase::Creating { has_config } => if has_config {
            (WifiPhase::SettingStationMode, WifiAction::SetMode(WifiMode::Station))
        } else {
            (WifiPhase::SettingAccessPointMode, WifiAction::SetMode(WifiMode::AccessPoint))
        },
        WifiPhase::SettingStationMode => (WifiPhase::SettingStationConfig, WifiAction::SetStationConfig),
        WifiPhase::SettingStationConfig => (WifiPhase::StartingStation, WifiAction::Start),
        WifiPhase::StartingStation => (WifiPhase::Connecting, WifiAction::Connect),
        WifiPhase::Connecting => (WifiPhase::Checking { done: 0 }, WifiAction::CheckConnected),
        WifiPhase::Checking { done } => if event == WifiEvent::Connected(true) {
            (WifiPhase::Ready(WifiMode::Station), WifiAction::Finish(WifiMode::Station))
        } else {
            (WifiPhase::Waiting { done }, WifiAction::Delay(CONNECT_RETRY_DELAY_MS))
        },
        WifiPhase::Waiting { done } => if done < CONNECT_ATTEMPTS - 1 {
            (WifiPhase::Checking { done: done + 1 }, WifiAction::CheckConnected)
        } else {
            (WifiPhase::SettingAccessPointMode, WifiAction::SetMode(WifiMode::AccessPoint))
        },
        WifiPhase::SettingAccessPointMode => (
            WifiPhase::SettingAccessPointConfig,
            WifiAction::SetAccessPointConfig,
        ),
        WifiPhase::SettingAccessPointConfig => (WifiPhase::StartingAccessPoint, WifiAction::Start),
        _ => (WifiPhase::Ready(WifiMode::AccessPoint), WifiAction::Finish(WifiMode::AccessPoint)),
    }
}

/// The actions that the sequence asks for, from `phase`, on `events` in turn.
pub open spec fn run_actions(phase: WifiPhase, events: Seq<WifiEvent>) -> Seq<WifiAction>
    decreases events.len(),
{
    if events.len() == 0 {
        Seq::<WifiAction>::empty()
    } else {
        let (next, action) = spec_step(phase, events[0]);
        seq![action] + run_actions(next, events.drop_first())
    }
}

/// The phase that the sequence reaches from `phase` on `events` in turn.
pub open spec fn run_phase(phase: WifiPhase, events: Seq<WifiEvent>) -> WifiPhase
    decreases events.len(),
{
    if events.len() == 0 {
        phase
    } else {
        run_phase(spec_step(phase, events[0]).0, events.drop_first())
    }
}

/// How many connection checks `actions` ask for.
pub open spec fn count_checks(actions: Seq<WifiAction>) -> nat
    decreases actions.len(),
{
    if actions.len() == 0 {
        0
    } else {
        (if actions[0] == WifiAction::CheckConnected { 1nat } else { 0nat }) + count_checks(
            actions.drop_first(),
        )
    }
}

/// How many connection checks can still be asked for from `phase`.
pub open spec fn checks_left(phase: WifiPhase) -> int {
    match phase {
        WifiPhase::Creating { has_config } => if has_config { 5 } else { 0 },
        WifiPhase::SettingStationMode => 5,
        WifiPhase::SettingStationConfig => 5,
        WifiPhase::StartingStation => 5,
        WifiPhase::Connecting => 5,
        WifiPhase::Checking { done } => 4 - done,
        WifiPhase::Waiting { done } => 4 - done,
        _ => 0,
    }
}

/// A measure of the work left from `phase`: every step from a phase where
/// the sequence is not over lowers it.
pub open spec fn steps_left(phase: WifiPhase) -> int {
    match phase {
        WifiPhase::Creating { .. } => 18,
        WifiPhase::SettingStationMode => 17,
        WifiPhase::SettingStationConfig => 16,
        WifiPhase::StartingStation => 15,
        WifiPhase::Connecting => 14,
        WifiPhase::Checking { done } => 13 - 2 * done,
        WifiPhase::Waiting { done } => 12 - 2 * done,
        WifiPhase::SettingAccessPointMode => 3,
        WifiPhase::SettingAccessPointConfig => 2,
        WifiPhase::StartingAccessPoint => 1,
        _ => 0,
    }
}

/// A failing driver call ends the sequence: the caller is told to return
/// the error.
pub proof fn lemma_error_aborts(phase: WifiPhase)
    requires
        !is_final(phase),
    ensures
        spec_step(phase, WifiEvent::Error) == (WifiPhase::Failed, WifiAction::Abort),
{
}

/// Every step from a phase where the sequence is not over lowers the
/// measure of the work left.
pub proof fn lemma_step_progresses(phase: WifiPhase, event: WifiEvent)
    requires
        phase_valid(phase),
        !is_final(phase),
    ensures
        0 <= steps_left(spec_step(phase, event).0) < steps_left(phase),
{
}

/// Once over, the sequence stays over and asks for nothing new.
pub proof fn lemma_final_is_stable(phase: WifiPhase, event: WifiEvent)
    requires
        is_final(phase),
    ensures
        spec_step(phase, event).0 == phase,
{
}

/// The sequence always ends: from the start, whatever the driver answers,
/// it is over after 18 steps.
pub proof fn lemma_sequence_ends(phase: WifiPhase, events: Seq<WifiEvent>)
    requires
        phase_valid(phase),
        events.len() >= steps_left(phase),
    ensures
        is_final(run_phase(phase, events)),
    decreases events.len(),
{
    if events.len() > 0 {
        let next = spec_step(phase, events[0]).0;
        if is_final(phase) {
            lemma_final_is_stable(phase, events[0]);
        } else {
            lemma_step_progresses(phase, events[0]);
        }
        lemma_sequence_ends(next, events.drop_first());
    }
}

/// The connection is checked at most `checks_left(phase)` times from
/// `phase`: at most five times from the start.
pub proof fn lemma_checks_bounded(phase: WifiPhase, events: Seq<WifiEvent>)
    requires
        phase_valid(phase),
    ensures
        count_checks(run_actions(phase, events)) <= checks_left(phase),
        checks_left(phase) <= CONNECT_ATTEMPTS,
    decreases events.len(),
{
    if events.len() > 0 {
        let (next, action) = spec_step(phase, events[0]);
        lemma_checks_bounded(next, events.drop_first());
        let rest = run_actions(next, events.drop_first());
        let all = seq![action] + rest;
        assert(all[0] == action);
        assert(all.drop_first() =~= rest);
    }
}

/// Without a network to join, the device never acts as a station: it never
/// sets station mode, never gives station credentials, never checks a
/// connection, and never ends up as a station.
pub proof fn lemma_no_config_means_access_point(events: Seq<WifiEvent>)
    ensures
        !run_actions(WifiPhase::Creating { has_config: false }, events).contains(
            WifiAction::SetMode(WifiMode::Station),
        ),
        !run_actions(WifiPhase::Creating { has_config: false }, events).contains(
            WifiAction::SetStationConfig,
        ),
        !run_actions(WifiPhase::Creating { has_config: false }, events).contains(
            WifiAction::CheckConnected,
        ),
        run_phase(WifiPhase::Creating { has_config: false }, events) != WifiPhase::Ready(
            WifiMode::Station,
        ),
{
    lemma_station_free_run(WifiPhase::Creating { has_config: false }, events);
}

/// The device ends up as a station only after a connection check has
/// answered that the connection is up.
pub proof fn lemma_station_needs_connection(phase: WifiPhase, events: Seq<WifiEvent>)
    requires
        phase != WifiPhase::Ready(WifiMode::Station),
    ensures
        run_phase(phase, events) == WifiPhase::Ready(WifiMode::Station) ==> events.contains(
            WifiEvent::Connected(true),
        ),
    decreases events.len(),
{
    if events.len() > 0 {
        let next = spec_step(phase, events[0]).0;
        if next == WifiPhase::Ready(WifiMode::Station) {
            assert(events[0] == WifiEvent::Connected(true));
        } else {
            lemma_station_needs_connection(next, events.drop_first());
            if run_phase(phase, events) == WifiPhase::Ready(WifiMode::Station) {
                let j = choose|j: int|
                    0 <= j < events.drop_first().len() && events.drop_first()[j]
                        == WifiEvent::Connected(true);
                assert(events[j + 1] == WifiEvent::Connected(true));
            }
        }
    }
}

/// A connection check that answers that the connection is up ends the
/// sequence there, as a station, whichever check it is.
pub proof fn lemma_connection_up_ends_as_station(done: u8)
    ensures
        spec_step(WifiPhase::Checking { done }, WifiEvent::Connected(true)) == (
            WifiPhase::Ready(WifiMode::Station),
            WifiAction::Finish(WifiMode::Station),
        ),
{
}

/// Whether, on `events` from `phase`, some connection check is answered
/// with the connection up.
pub open spec fn some_check_answered_up(phase: WifiPhase, events: Seq<WifiEvent>) -> bool
    decreases events.len(),
{
    if events.len() == 0 {
        false
    } else {
        (phase is Checking && events[0] == WifiEvent::Connected(true)) || some_check_answered_up(
            spec_step(phase, events[0]).0,
            events.drop_first(),
        )
    }
}

/// Once a connection check answers that the connection is up, the device
/// ends up a station and stays one, whatever comes after.
pub proof fn lemma_answered_up_means_station(phase: WifiPhase, events: Seq<WifiEvent>)
    requires
        some_check_answered_up(phase, events),
    ensures
        run_phase(phase, events) == WifiPhase::Ready(WifiMode::Station),
    decreases events.len(),
{
    let next = spec_step(phase, events[0]).0;
    if phase is Checking && events[0] == WifiEvent::Connected(true) {
        lemma_connection_up_ends_as_station(phase->Checking_done);
        lemma_ready_station_stays(next, events.drop_first());
    } else {
        lemma_answered_up_means_station(next, events.drop_first());
    }
}

/// A device that is up as a station stays so.
proof fn lemma_ready_station_stays(phase: WifiPhase, events: Seq<WifiEvent>)
    requires
        phase == WifiPhase::Ready(WifiMode::Station),
    ensures
        run_phase(phase, events) == phase,
    decreases events.len(),
{
    if events.len() > 0 {
        lemma_ready_station_stays(spec_step(phase, events[0]).0, events.drop_first());
    }
}

/// How many connection checks have been asked for when the sequence, begun
/// with a network to join, stands in `phase`.
pub open spec fn checks_made_so_far(phase: WifiPhase, made: int) -> bool {
    match phase {
        WifiPhase::Creating { has_config } => has_config && made == 0,
        WifiPhase::SettingStationMode => made == 0,
        WifiPhase::SettingStationConfig => made == 0,
        WifiPhase::StartingStation => made == 0,
        WifiPhase::Connecting => made == 0,
        WifiPhase::Checking { done } => done < CONNECT_ATTEMPTS && made == done + 1,
        WifiPhase::Waiting { done } => done < CONNECT_ATTEMPTS && made == done + 1,
        WifiPhase::SettingAccessPointMode => made == CONNECT_ATTEMPTS,
        WifiPhase::SettingAccessPointConfig => made == CONNECT_ATTEMPTS,
        WifiPhase::StartingAccessPoint => made == CONNECT_ATTEMPTS,
        WifiPhase::Ready(m) => m == WifiMode::AccessPoint ==> made == CONNECT_ATTEMPTS,
        WifiPhase::Failed => true,
    }
}

proof fn lemma_checks_made(phase: WifiPhase, events: Seq<WifiEvent>, made: int)
    requires
        checks_made_so_far(phase, made),
    ensures
        checks_made_so_far(
            run_phase(phase, events),
            made + count_checks(run_actions(phase, events)),
        ),
    decreases events.len(),
{
    if events.len() > 0 {
        let (next, action) = spec_step(phase, events[0]);
        let step = if action == WifiAction::CheckConnected { 1int } else { 0int };
        lemma_checks_made(next, events.drop_first(), made + step);
        let rest = run_actions(next, events.drop_first());
        let all = seq![action] + rest;
        assert(all[0] == action);
        assert(all.drop_first() =~= rest);
    }
}

/// Begun with a network to join, the device opens the access point only
/// after all five connection checks were made and none answered that the
/// connection was up.
pub proof fn lemma_access_point_only_after_five_failed_checks(events: Seq<WifiEvent>)
    requires
        run_phase(WifiPhase::Creating { has_config: true }, events) == WifiPhase::Ready(
            WifiMode::AccessPoint,
        ),
    ensures
        count_checks(run_actions(WifiPhase::Creating { has_config: true }, events))
            == CONNECT_ATTEMPTS,
        !some_check_answered_up(WifiPhase::Creating { has_config: true }, events),
{
    lemma_checks_made(WifiPhase::Creating { has_config: true }, events, 0);
    if some_check_answered_up(WifiPhase::Creating { has_config: true }, events) {
        lemma_answered_up_means_station(WifiPhase::Creating { has_config: true }, events);
    }
}

/// Whether every wait that `actions` ask for lasts one second.
pub open spec fn waits_are_one_second(actions: Seq<WifiAction>) -> bool {
    forall|i: int| 0 <= i < actions.len() ==> (#[trigger] actions[i] is Delay ==> actions[i]
        == WifiAction::Delay(1000))
}

/// Every wait between two connection checks lasts one second.
pub proof fn lemma_waits_last_one_second(phase: WifiPhase, events: Seq<WifiEvent>)
    ensures
        waits_are_one_second(run_actions(phase, events)),
    decreases events.len(),
{
    if events.len() > 0 {
        let (next, action) = spec_step(phase, events[0]);
        lemma_waits_last_one_second(next, events.drop_first());
        let rest = run_actions(next, events.drop_first());
        let all = seq![action] + rest;
        assert forall|i: int| 0 <= i < all.len() && #[trigger] all[i] is Delay implies all[i]
            == WifiAction::Delay(1000) by {
            if i > 0 {
                assert(all[i] == rest[i - 1]);
            }
        }
    }
}

/// A connection check that answers that the connection is down, before the
/// fifth, leads to a one-second wait and then another check.
pub proof fn lemma_down_check_waits_then_checks_again(done: u8)
    requires
        done < CONNECT_ATTEMPTS - 1,
    ensures
        spec_step(WifiPhase::Checking { done }, WifiEvent::Connected(false)).1 == WifiAction::Delay(
            1000,
        ),
        spec_step(
            spec_step(WifiPhase::Checking { done }, WifiEvent::Connected(false)).0,
            WifiEvent::Done,
        ).1 == WifiAction::CheckConnected,
{
}

/// The phases reached without a network to join.
pub open spec fn station_free(phase: WifiPhase) -> bool {
    match phase {
        WifiPhase::Creating { has_config } => !has_config,
        WifiPhase::SettingAccessPointMode => true,
        WifiPhase::SettingAccessPointConfig => true,
        WifiPhase::StartingAccessPoint => true,
        WifiPhase::Ready(m) => m == WifiMode::AccessPoint,
        WifiPhase::Failed => true,
        _ => false,
    }
}

proof fn lemma_station_free_run(phase: WifiPhase, events: Seq<WifiEvent>)
    requires
        station_free(phase),
    ensures
        !run_actions(phase, events).contains(WifiAction::SetMode(WifiMode::Station)),
        !run_actions(phase, events).contains(WifiAction::SetStationConfig),
        !run_actions(phase, events).contains(WifiAction::CheckConnected),
        station_free(run_phase(phase, events)),
    decreases events.len(),
{
    if events.len() > 0 {
        let (next, action) = spec_step(phase, events[0]);
        lemma_station_free_run(next, events.drop_first());
        let rest = run_actions(next, events.drop_first());
        let all = seq![action] + rest;
        assert forall|i: int| 0 <= i < all.len() implies all[i] != WifiAction::SetMode(
            WifiMode::Station,
        ) && all[i] != WifiAction::SetStationConfig && all[i] != WifiAction::CheckConnected by {
            if i > 0 {
                assert(all[i] == rest[i - 1]);
            }
        }
    }
}

} // verus!
