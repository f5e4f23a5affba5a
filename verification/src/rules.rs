//! The rule engine: decides the relay's state from the sensor readings.

use vstd::prelude::*;
use crate::float_bits::{f32_gt, f32_less, f32_lt, is_nan, lemma_less_is_numeric_order, scaled_value};
use crate::shared::{rule_list, rule_list_as_slice, Rule, SensorData, SharedState};
use crate::text::{rule_word_as_str, str_eq};

verus! {

/// Whether the condition of `rule` holds of the readings `data`:
/// `light_high` and `temp_high` ask that the reading exceed the threshold,
/// `light_low` and `temp_low` that it fall below it; any other condition
/// never holds.
pub open spec fn condition_met(rule: Rule, data: SensorData) -> bool {
    let c = rule.condition_view();
    if c == "light_high"@ {
        f32_less(rule.threshold, data.light)
    } else if c == "light_low"@ {
        f32_less(data.light, rule.threshold)
    } else if c == "temp_high"@ {
        f32_less(rule.threshold, data.temperature)
    } else if c == "temp_low"@ {
        f32_less(data.temperature, rule.threshold)
    } else {
        false
    }
}

/// The relay's state once `rule` fires while the relay is at `relay`:
/// `relay_on` switches it on, `relay_off` off, any other action leaves it.
pub open spec fn action_outcome(rule: Rule, relay: bool) -> bool {
    let a = rule.action_view();
    if a == "relay_on"@ {
        true
    } else if a == "relay_off"@ {
        false
    } else {
        relay
    }
}

/// The relay's state that `rules` decide: the first rule, in order, whose
/// condition holds fires; when none does, the relay stays at `relay`.
pub open spec fn rules_outcome(rules: Seq<Rule>, data: SensorData, relay: bool) -> bool
    decreases rules.len(),
{
    if rules.len() == 0 {
        relay
    } else if condition_met(rules[0], data) {
        action_outcome(rules[0], relay)
    } else {
        rules_outcome(rules.drop_first(), data, relay)
    }
}

/// Decides whether the condition of `rule` holds of `data`.
pub fn rule_condition_met(rule: &Rule, data: &SensorData) -> (met: bool)
    ensures
        met == condition_met(*rule, *data),
{
    let c = rule_word_as_str(&rule.condition);
    if str_eq(c, "light_high") {
        f32_gt(data.light, rule.threshold)
    } else if str_eq(c, "light_low") {
        f32_lt(data.light, rule.threshold)
    } else if str_eq(c, "temp_high") {
        f32_gt(data.temperature, rule.threshold)
    } else if str_eq(c, "temp_low") {
        f32_lt(data.temperature, rule.threshold)
    } else {
        false
    }
}

/// The relay's state once `rule` fires while the relay is at `relay`.
pub fn rule_action(rule: &Rule, relay: bool) -> (on: bool)
    ensures
        on == action_outcome(*rule, relay),
{
    let a = rule_word_as_str(&rule.action);
    if str_eq(a, "relay_on") {
        true
    } else if str_eq(a, "relay_off") {
        false
    } else {
        relay
    }
}

/// The relay's state that the rules of `state` decide for the readings
/// `sensor_data`: the action of the first rule whose condition holds, or
/// the relay's present state when no rule's condition holds.
pub fn apply_rules(state: &SharedState, sensor_data: &SensorData) -> (on: bool)
    ensures
        on == rules_outcome(state.rules_view(), *sensor_data, state.relay_state),
{
    let rules = rule_list_as_slice(&state.rules);
    let relay = state.relay_state;
    let n = rules.len();
    let mut i: usize = 0;
    proof {
        assert(rules@.skip(0) =~= rules@);
    }
    while i < n
        invariant
            n == rules@.len(),
            rules@ == state.rules_view(),
            relay == state.relay_state,
            i <= n,
            rules_outcome(rules@, *sensor_data, relay) == rules_outcome(
                rules@.skip(i as int),
                *sensor_data,
                relay,
            ),
        decreases n - i,
    {
        let rule = &rules[i];
        proof {
            assert(rules@.skip(i as int)[0] == rules@[i as int]);
            assert(rules@.skip(i as int).drop_first() =~= rules@.skip(i + 1));
        }
        if rule_condition_met(rule, sensor_data) {
            return rule_action(rule, relay);
        }
        i = i + 1;
    }
    relay
}

/// With no rule, the relay keeps its state.
pub proof fn lemma_no_rules_keep_relay(data: SensorData, relay: bool)
    ensures
        rules_outcome(Seq::<Rule>::empty(), data, relay) == relay,
{
}

/// The first rule whose condition holds decides: when the condition of
/// `rules[k]` holds and that of no earlier rule does, the outcome is the
/// action of `rules[k]`, whatever the rules after it say.
pub proof fn lemma_first_met_rule_decides(rules: Seq<Rule>, data: SensorData, relay: bool, k: int)
    requires
        0 <= k < rules.len(),
        condition_met(rules[k], data),
        forall|j: int| 0 <= j < k ==> !condition_met(#[trigger] rules[j], data),
    ensures
        rules_outcome(rules, data, relay) == action_outcome(rules[k], relay),
    decreases k,
{
    if k > 0 {
        assert(!condition_met(rules[0], data));
        let rest = rules.drop_first();
        assert forall|j: int| 0 <= j < k - 1 implies !condition_met(#[trigger] rest[j], data) by {
            assert(rest[j] == rules[j + 1]);
        }
        lemma_first_met_rule_decides(rest, data, relay, k - 1);
    }
}

/// When no rule's condition holds, the relay keeps its state.
pub proof fn lemma_no_met_rule_keeps_relay(rules: Seq<Rule>, data: SensorData, relay: bool)
    requires
        forall|j: int| 0 <= j < rules.len() ==> !condition_met(#[trigger] rules[j], data),
    ensures
        rules_outcome(rules, data, relay) == relay,
    decreases rules.len(),
{
    if rules.len() > 0 {
        let rest = rules.drop_first();
        assert(!condition_met(rules[0], data));
        assert forall|j: int| 0 <= j < rest.len() implies !condition_met(#[trigger] rest[j], data) by {
            assert(rest[j] == rules[j + 1]);
        }
        lemma_no_met_rule_keeps_relay(rest, data, relay);
    }
}

/// When the light and temperature readings are both NaN, no rule fires and
/// the relay keeps its state.
pub proof fn lemma_nan_readings_keep_relay(rules: Seq<Rule>, data: SensorData, relay: bool)
    requires
        is_nan(data.light),
        is_nan(data.temperature),
    ensures
        rules_outcome(rules, data, relay) == relay,
{
    assert forall|j: int| 0 <= j < rules.len() implies !condition_met(#[trigger] rules[j], data) by {
    }
    lemma_no_met_rule_keeps_relay(rules, data, relay);
}

/// Whether some rule of `rules` has a condition that holds of `data`.
pub open spec fn some_rule_met(rules: Seq<Rule>, data: SensorData) -> bool {
    exists|j: int| 0 <= j < rules.len() && condition_met(#[trigger] rules[j], data)
}

/// A rule added after the others only decides when none of them fires:
/// when one does, the outcome stays as it was; when none does, the added
/// rule decides as if it were the only one.
pub proof fn lemma_added_rule_comes_last(rules: Seq<Rule>, rule: Rule, data: SensorData, relay: bool)
    ensures
        some_rule_met(rules, data) ==> rules_outcome(rules.push(rule), data, relay)
            == rules_outcome(rules, data, relay),
        !some_rule_met(rules, data) ==> rules_outcome(rules.push(rule), data, relay)
            == rules_outcome(seq![rule], data, relay),
    decreases rules.len(),
{
    if rules.len() > 0 {
        let rest = rules.drop_first();
        assert(rules.push(rule)[0] == rules[0]);
        assert(rules.push(rule).drop_first() =~= rest.push(rule));
        lemma_added_rule_comes_last(rest, rule, data, relay);
        if !condition_met(rules[0], data) {
            if some_rule_met(rules, data) {
                let j = choose|j: int| 0 <= j < rules.len() && condition_met(#[trigger] rules[j], data);
                assert(rest[j - 1] == rules[j]);
            } else {
                assert forall|j: int| 0 <= j < rest.len() implies !condition_met(#[trigger] rest[j], data) by {
                    assert(rest[j] == rules[j + 1]);
                }
            }
        } else {
            assert(condition_met(rules[0], data));
        }
    } else {
        assert(rules.push(rule) =~= seq![rule]);
    }
}

/// Whether `rule` can never fire on the readings `data`: its condition is
/// none of `light_high`, `light_low`, `temp_high`, `temp_low`, or the
/// reading it compares, or its threshold, is NaN.
pub open spec fn never_fires(rule: Rule, data: SensorData) -> bool {
    let c = rule.condition_view();
    if c == "light_high"@ || c == "light_low"@ {
        is_nan(data.light) || is_nan(rule.threshold)
    } else if c == "temp_high"@ || c == "temp_low"@ {
        is_nan(data.temperature) || is_nan(rule.threshold)
    } else {
        true
    }
}

/// `rules` without every rule that can never fire on `data`, the others
/// kept in order.
pub open spec fn without_idle_rules(rules: Seq<Rule>, data: SensorData) -> Seq<Rule>
    decreases rules.len(),
{
    if rules.len() == 0 {
        Seq::<Rule>::empty()
    } else if never_fires(rules[0], data) {
        without_idle_rules(rules.drop_first(), data)
    } else {
        seq![rules[0]] + without_idle_rules(rules.drop_first(), data)
    }
}

/// A rule with an unknown condition, or comparing a NaN reading or against
/// a NaN threshold, does not fire.
pub proof fn lemma_idle_rule_does_not_fire(rule: Rule, data: SensorData)
    requires
        never_fires(rule, data),
    ensures
        !condition_met(rule, data),
{
}

/// Dropping the rules that can never fire on the readings changes nothing:
/// the relay's state that the rules decide stays the same.
pub proof fn lemma_idle_rules_can_be_dropped(rules: Seq<Rule>, data: SensorData, relay: bool)
    ensures
        rules_outcome(without_idle_rules(rules, data), data, relay) == rules_outcome(
            rules,
            data,
            relay,
        ),
    decreases rules.len(),
{
    if rules.len() > 0 {
        let rest = rules.drop_first();
        lemma_idle_rules_can_be_dropped(rest, data, relay);
        if never_fires(rules[0], data) {
            lemma_idle_rule_does_not_fire(rules[0], data);
        } else {
            let kept = seq![rules[0]] + without_idle_rules(rest, data);
            assert(kept[0] == rules[0]);
            assert(kept.drop_first() =~= without_idle_rules(rest, data));
        }
    }
}

/// `a < b` on the numbers that two `f32` bit patterns stand for, as Rust's
/// `<` on `f32` gives it: false when either is NaN.
pub open spec fn numerically_below(a: u32, b: u32) -> bool {
    !is_nan(a) && !is_nan(b) && scaled_value(a) < scaled_value(b)
}

/// Each condition is the plain comparison of its reading with the
/// threshold, as numbers: `light_high` holds exactly when the light reading
/// is above the threshold, `light_low` when it is below, `temp_high` and
/// `temp_low` likewise with the temperature; NaN on either side makes the
/// comparison false; any other condition never holds.
pub proof fn lemma_condition_is_threshold_comparison(rule: Rule, data: SensorData)
    ensures
        rule.condition_view() == "light_high"@ ==> (condition_met(rule, data) <==> numerically_below(
            rule.threshold,
            data.light,
        )),
        rule.condition_view() == "light_low"@ ==> (condition_met(rule, data) <==> numerically_below(
            data.light,
            rule.threshold,
        )),
        rule.condition_view() == "temp_high"@ ==> (condition_met(rule, data) <==> numerically_below(
            rule.threshold,
            data.temperature,
        )),
        rule.condition_view() == "temp_low"@ ==> (condition_met(rule, data) <==> numerically_below(
            data.temperature,
            rule.threshold,
        )),
        rule.condition_view() != "light_high"@ && rule.condition_view() != "light_low"@
            && rule.condition_view() != "temp_high"@ && rule.condition_view() != "temp_low"@
            ==> !condition_met(rule, data),
{
    reveal_strlit("light_high");
    reveal_strlit("light_low");
    reveal_strlit("temp_high");
    reveal_strlit("temp_low");
    assert("light_high"@.len() == 10 && "light_low"@.len() == 9);
    assert("temp_high"@.len() == 9 && "temp_low"@.len() == 8);
    assert("temp_high"@[0] == 't' && "light_low"@[0] == 'l' && "light_high"@[0] == 'l');
    assert("light_low"@ != "light_high"@);
    assert("temp_high"@ != "light_high"@ && "temp_high"@ != "light_low"@);
    assert("temp_low"@ != "light_high"@ && "temp_low"@ != "light_low"@ && "temp_low"@
        != "temp_high"@);
    let t = rule.threshold;
    if !is_nan(t) && !is_nan(data.light) {
        lemma_less_is_numeric_order(t, data.light);
        lemma_less_is_numeric_order(data.light, t);
    }
    if !is_nan(t) && !is_nan(data.temperature) {
        lemma_less_is_numeric_order(t, data.temperature);
        lemma_less_is_numeric_order(data.temperature, t);
    }
}

/// What a firing rule does: `relay_on` switches the relay on, `relay_off`
/// switches it off, any other action leaves it as it is.
pub proof fn lemma_action_meaning(rule: Rule, relay: bool)
    ensures
        rule.action_view() == "relay_on"@ ==> action_outcome(rule, relay),
        rule.action_view() == "relay_off"@ ==> !action_outcome(rule, relay),
        rule.action_view() != "relay_on"@ && rule.action_view() != "relay_off"@ ==> action_outcome(
            rule,
            relay,
        ) == relay,
{
    reveal_strlit("relay_on");
    reveal_strlit("relay_off");
    assert("relay_on"@.len() == 8 && "relay_off"@.len() == 9);
}

} // verus!
