//! The state that the web API and the rule engine share: the latest sensor
//! readings, the automation rules and the relay.

use vstd::prelude::*;
use crate::text::{password_text, rule_word_text, ssid_text};

verus! {

#[verifier::external_type_specification]
#[verifier::external_body]
#[verifier::reject_recursive_types(T)]
pub struct ExHeaplessVec<T, const N: usize>(heapless::Vec<T, N>);

/// Credentials of the Wi-Fi network to join.
pub struct WifiConfig {
    pub ssid: heapless::String<32>,
    pub password: heapless::String<64>,
}

impl WifiConfig {
    /// The network name.
    pub open spec fn ssid_view(&self) -> Seq<char> {
        ssid_text(self.ssid)
    }

    /// The password.
    pub open spec fn password_view(&self) -> Seq<char> {
        password_text(self.password)
    }
}

/// An automation rule: when `condition` holds of the readings against
/// `threshold`, the relay follows `action`.
///
/// `threshold` is the bit pattern of an `f32` (see `float_bits`).
pub struct Rule {
    pub condition: heapless::String<20>,
    pub threshold: u32,
    pub action: heapless::String<20>,
}

impl Rule {
    /// The condition's name.
    pub open spec fn condition_view(&self) -> Seq<char> {
        rule_word_text(self.condition)
    }

    /// The action's name.
    pub open spec fn action_view(&self) -> Seq<char> {
        rule_word_text(self.action)
    }
}

/// The latest readings of the sensors, each the bit pattern of an `f32`:
/// volts, degrees Celsius, lux and centimetres.
#[derive(Debug, Clone, Copy, PartialEq, Eq, Structural)]
pub struct SensorData {
    pub voltage: u32,
    pub temperature: u32,
    pub light: u32,
    pub distance: u32,
}

/// What the web API's handlers and the rule engine share.
pub struct SharedState {
    pub sensor_data: SensorData,
    pub rules: heapless::Vec<Rule, 8>,
    pub relay_state: bool,
}

/// What a `SharedState` holds: the readings, the rules in the order in
/// which they were added, and whether the relay is on.
pub struct SharedStateView {
    pub sensor_data: SensorData,
    pub rules: Seq<Rule>,
    pub relay: bool,
}

/// The state at start-up with the readings `sensor_data`: no rules, relay
/// off.
pub open spec fn initial_state(sensor_data: SensorData) -> SharedStateView {
    SharedStateView { sensor_data, rules: Seq::<Rule>::empty(), relay: false }
}

/// The rules held by a rule list, in the order in which they were added.
pub uninterp spec fn rule_list(v: heapless::Vec<Rule, 8>) -> Seq<Rule>;

/// `heapless::Vec::<Rule, 8>::new`: an empty list.
#[verifier::external_body]
fn rule_list_new() -> (res: heapless::Vec<Rule, 8>)
    ensures
        rule_list(res) == Seq::<Rule>::empty(),
{
    heapless::Vec::new()
}

/// `heapless::Vec::<Rule, 8>::push`: appends `rule` when fewer than 8 rules
/// are held; otherwise hands `rule` back in `Err` and leaves the list as it
/// was.
#[verifier::external_body]
pub(crate) fn rule_list_push(v: &mut heapless::Vec<Rule, 8>, rule: Rule) -> (res: Result<(), Rule>)
    ensures
        res is Ok <==> rule_list(*old(v)).len() < 8,
        res is Ok ==> rule_list(*final(v)) == rule_list(*old(v)).push(rule),
        res matches Err(r) ==> r == rule && rule_list(*final(v)) == rule_list(*old(v)),
        rule_list(*final(v)).len() <= 8,
{
    v.push(rule)
}

/// `heapless::Vec::<Rule, 8>::as_slice`: the rules held, at most 8.
#[verifier::external_body]
pub(crate) fn rule_list_as_slice(v: &heapless::Vec<Rule, 8>) -> (res: &[Rule])
    ensures
        res@ == rule_list(*v),
        res@.len() <= 8,
{
    v.as_slice()
}

impl SharedState {
    /// The state at start-up: the given readings, no rules, relay off.
    pub fn new(sensor_data: SensorData) -> (s: SharedState)
        ensures
            s.sensor_data == sensor_data,
            rule_list(s.rules) == Seq::<Rule>::empty(),
            !s.relay_state,
            s@ == initial_state(sensor_data),
    {
        SharedState { sensor_data, rules: rule_list_new(), relay_state: false }
    }

    /// The rules held, in the order in which they were added.
    pub open spec fn rules_view(&self) -> Seq<Rule> {
        rule_list(self.rules)
    }
}

impl View for SharedState {
    type V = SharedStateView;

    open spec fn view(&self) -> SharedStateView {
        SharedStateView {
            sensor_data: self.sensor_data,
            rules: rule_list(self.rules),
            relay: self.relay_state,
        }
    }
}

/// The relay's state: on or off.
pub fn get_relay_state(state: &SharedState) -> (on: bool)
    ensures
        on == state.relay_state,
{
    state.relay_state
}

} // verus!
