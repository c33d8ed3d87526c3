//! What each key does to each kind of entity, as Home Assistant sees it.

use super::actions::{Action, OperandModel};
use super::types::{CallModel, EntityModel};
use crate::json::{JsonModel, NumberModel};
use vstd::prelude::*;

verus! {

/// Whether the entity is of a domain.
pub open spec fn is_of(e: EntityModel, domain: Seq<char>) -> bool {
    super::types::domain(e.entity_id) == domain
}

/// Whether the entity reports one of the features, or none at all.
pub open spec fn can(e: EntityModel, bits: u64) -> bool {
    match e.attr("supported_features"@) {
        Some(v) => match crate::json::uint(v) {
            Some(reported) => reported & bits != 0,
            None => true,
        },
        None => true,
    }
}

/// Whether the action means nothing on the entity.
pub open spec fn nothing(e: EntityModel, a: Action) -> bool {
    super::actions::service(e, a) is None
}

/// Whether the action calls the service of the entity's own domain on it, without data.
pub open spec fn does(e: EntityModel, a: Action, service: Seq<char>) -> bool {
    match super::actions::service(e, a) {
        Some(c) => {
            &&& c.domain == super::types::domain(e.entity_id)
            &&& c.service == service
            &&& c.entity_id == Some(e.entity_id)
            &&& c.data.len() == 0
        },
        None => false,
    }
}

/// Whether the action calls the service of the entity's own domain on it, with one value.
pub open spec fn sets(e: EntityModel, a: Action, service: Seq<char>, key: Seq<char>, value: JsonModel) -> bool {
    match super::actions::service(e, a) {
        Some(c) => {
            &&& c.domain == super::types::domain(e.entity_id)
            &&& c.service == service
            &&& c.entity_id == Some(e.entity_id)
            &&& c.data.len() == 1 && c.data[0].0 == key && c.data[0].1 == value
        },
        None => false,
    }
}

/// Whether the action sets a value to what the entity steps to, where it steps to something.
pub open spec fn steps(e: EntityModel, a: Action, service: Seq<char>, key: Seq<char>, to: Option<NumberModel>) -> bool {
    match to {
        Some(n) => sets(e, a, service, key, JsonModel::Number(n)),
        None => nothing(e, a),
    }
}

/// Whether the action toggles the entity through the service that toggles anything: it is on or off.
pub open spec fn toggles_anything(e: EntityModel, a: Action) -> bool {
    if a == Action::Primary && (e.state == "on"@ || e.state == "off"@) {
        match super::actions::service(e, a) {
            Some(c) => c.domain == "homeassistant"@ && c.service == "toggle"@ && c.entity_id == Some(e.entity_id) && c.data.len() == 0,
            None => false,
        }
    } else {
        nothing(e, a)
    }
}

/// What the domains are made of.
proof fn reveal_names()
    ensures
        "light"@.len() == 5 && "light"@[0] == 'l',
        "switch"@.len() == 6 && "switch"@[1] == 'w' && "switch"@[0] == 's',
        "input_boolean"@.len() == 13 && "input_boolean"@[0] == 'i',
        "siren"@.len() == 5 && "siren"@[0] == 's' && "siren"@[1] == 'i',
        "humidifier"@.len() == 10 && "humidifier"@[0] == 'h',
        "fan"@.len() == 3 && "fan"@[0] == 'f',
        "climate"@.len() == 7 && "climate"@[0] == 'c',
        "cover"@.len() == 5 && "cover"@[0] == 'c',
        "valve"@.len() == 5 && "valve"@[0] == 'v',
        "media_player"@.len() == 12 && "media_player"@[0] == 'm',
        "lock"@.len() == 4 && "lock"@[0] == 'l',
        "vacuum"@.len() == 6 && "vacuum"@[0] == 'v',
        "scene"@.len() == 5 && "scene"@[0] == 's' && "scene"@[1] == 'c',
        "script"@.len() == 6 && "script"@[1] == 'c' && "script"@[0] == 's',
        "automation"@.len() == 10 && "automation"@[0] == 'a',
        "button"@.len() == 6 && "button"@[0] == 'b',
        "input_button"@.len() == 12 && "input_button"@[0] == 'i' && "input_button"@[6] == 'b',
        "input_number"@.len() == 12 && "input_number"@[0] == 'i' && "input_number"@[6] == 'n',
        "number"@.len() == 6 && "number"@[0] == 'n',
        "input_select"@.len() == 12 && "input_select"@[0] == 'i' && "input_select"@[6] == 's',
        "select"@.len() == 6 && "select"@[1] == 'e' && "select"@[2] == 'l' && "select"@[0] == 's',
        "sensor"@.len() == 6 && "sensor"@[0] == 's' && "sensor"@[1] == 'e' && "sensor"@[2] == 'n',
        "binary_sensor"@.len() == 13 && "binary_sensor"@[0] == 'b',
        "sun"@.len() == 3 && "sun"@[0] == 's',
        "weather"@.len() == 7 && "weather"@[0] == 'w',
        "person"@.len() == 6 && "person"@[0] == 'p',
        "device_tracker"@.len() == 14,
        "zone"@.len() == 4 && "zone"@[0] == 'z',
        "update"@.len() == 6 && "update"@[0] == 'u',
        "event"@.len() == 5 && "event"@[0] == 'e',
{
    reveal_strlit("light");
    reveal_strlit("switch");
    reveal_strlit("input_boolean");
    reveal_strlit("siren");
    reveal_strlit("humidifier");
    reveal_strlit("fan");
    reveal_strlit("climate");
    reveal_strlit("cover");
    reveal_strlit("valve");
    reveal_strlit("media_player");
    reveal_strlit("lock");
    reveal_strlit("vacuum");
    reveal_strlit("scene");
    reveal_strlit("script");
    reveal_strlit("automation");
    reveal_strlit("button");
    reveal_strlit("input_button");
    reveal_strlit("input_number");
    reveal_strlit("number");
    reveal_strlit("input_select");
    reveal_strlit("select");
    reveal_strlit("sensor");
    reveal_strlit("binary_sensor");
    reveal_strlit("sun");
    reveal_strlit("weather");
    reveal_strlit("person");
    reveal_strlit("device_tracker");
    reveal_strlit("zone");
    reveal_strlit("update");
    reveal_strlit("event");
}

// ----- Levels ------------------------------------------------------------------------------

/// Plus and minus go opposite ways. Where an action sets a number, that is what the entity steps to:
/// upward for the actions that go up, downward for those that go down. A light's brightness alone is
/// changed by a share, ten per cent more or less.
pub proof fn law_up_is_up_and_down_is_down(e: EntityModel, a: Action)
    ensures
        ({
            let n = super::actions::service(e, a)->0.data[0].1;
            let sets_number = super::actions::service(e, a) is Some && super::actions::service(e, a)->0.data.len() == 1 && n is Number;
            let brightness = is_of(e, "light"@) && (a == Action::Increase || a == Action::Decrease);
            &&& sets_number && !brightness ==> {
                &&& a == Action::Increase || a == Action::SecondaryUp ==> e.steps.up == Some(n->Number_0)
                &&& a == Action::Decrease || a == Action::SecondaryDown ==> e.steps.down == Some(n->Number_0)
                &&& a == Action::Increase || a == Action::SecondaryUp || a == Action::Decrease || a == Action::SecondaryDown
            }
            &&& sets_number && brightness ==> {
                &&& a == Action::Increase ==> n->Number_0.micros == 10_000_000 && n->Number_0.uint == Some(10u64)
                &&& a == Action::Decrease ==> n->Number_0.micros == -10_000_000 && n->Number_0.uint is None
            }
        }),
{
    reveal_names();
}

/// Plus and minus on one entity differ in the number alone: they call one service with one key, and set
/// one number only where the steps are equal.
pub proof fn law_up_and_down_are_opposites(e: EntityModel, up: Action, down: Action)
    requires
        (up == Action::Increase && down == Action::Decrease) || (up == Action::SecondaryUp && down == Action::SecondaryDown),
    ensures
        ({
            let u = super::actions::service(e, up);
            let d = super::actions::service(e, down);
            u is Some && d is Some && u->0.data.len() == 1 && d->0.data.len() == 1 ==> {
                &&& u->0.service == d->0.service
                &&& u->0.data[0].0 == d->0.data[0].0
                &&& u->0.data[0].1 == d->0.data[0].1 ==> e.steps.up == e.steps.down
            }
        }),
        ({
            let u = super::actions::service(e, up);
            let d = super::actions::service(e, down);
            u is Some && d is Some && u->0.data.len() == 0 ==> u->0.service != d->0.service
        }),
{
    reveal_names();
    reveal_strlit("increase_speed");
    reveal_strlit("decrease_speed");
    reveal_strlit("volume_up");
    reveal_strlit("volume_down");
    assert("increase_speed"@[0] == 'i' && "decrease_speed"@[0] == 'd');
    assert("volume_up"@.len() == 9 && "volume_down"@.len() == 11);
    if is_of(e, "light"@) && up == Action::Increase {
        law_up_is_up_and_down_is_down(e, up);
        law_up_is_up_and_down_is_down(e, down);
    }
}

/// What a step is reckoned from: what the entity is at, how far it goes, and between which bounds, each
/// under the name that Home Assistant gives it, and what stands in where it gives none.
pub proof fn law_levels(e: EntityModel)
    ensures
        ({
            let l = super::actions::level(e);
            let given = |k: Seq<char>, other: OperandModel| match e.attr_number(k) {
                Some(n) => OperandModel::Given(n),
                None => other,
            };
            &&& is_of(e, "light"@) ==> l is Some && l->0.cur == given("color_temp_kelvin"@, OperandModel::Middle) && l->0.by == OperandModel::Thousandths(
                250_000,
            ) && l->0.min == given("min_color_temp_kelvin"@, OperandModel::Thousandths(2_000_000)) && l->0.max == given(
                "max_color_temp_kelvin"@,
                OperandModel::Thousandths(6_500_000),
            ) && l->0.whole && !l->0.grid
            &&& is_of(e, "humidifier"@) ==> (l is Some <==> e.attr_number("humidity"@) is Some)
            &&& is_of(e, "humidifier"@) && l is Some ==> l->0.cur == OperandModel::Given(e.attr_number("humidity"@)->0) && l->0.by
                == OperandModel::Thousandths(5_000) && l->0.min == given("min_humidity"@, OperandModel::Thousandths(0)) && l->0.max == given(
                "max_humidity"@,
                OperandModel::Thousandths(100_000),
            ) && l->0.whole && l->0.grid
            &&& is_of(e, "climate"@) ==> (l is Some <==> e.attr_number("temperature"@) is Some)
            &&& is_of(e, "climate"@) && l is Some ==> l->0.cur == OperandModel::Given(e.attr_number("temperature"@)->0) && l->0.by == given(
                "target_temp_step"@,
                OperandModel::Thousandths(500),
            ) && l->0.min == given("min_temp"@, OperandModel::Lowest) && l->0.max == given("max_temp"@, OperandModel::Highest) && !l->0.whole
                && l->0.grid
            &&& is_of(e, "cover"@) ==> (l is Some <==> e.attr_number("current_position"@) is Some)
            &&& is_of(e, "cover"@) && l is Some ==> l->0.cur == OperandModel::Given(e.attr_number("current_position"@)->0) && l->0.by
                == OperandModel::Thousandths(10_000) && l->0.min == OperandModel::Thousandths(0) && l->0.max == OperandModel::Thousandths(100_000)
                && l->0.whole && l->0.grid
            &&& is_of(e, "input_number"@) || is_of(e, "number"@) ==> l is Some && l->0.cur == OperandModel::Written(e.state) && l->0.by == given(
                "step"@,
                OperandModel::Thousandths(1_000),
            ) && l->0.min == given("min"@, OperandModel::Lowest) && l->0.max == given("max"@, OperandModel::Highest) && !l->0.whole && l->0.grid
            &&& l is Some ==> is_of(e, "light"@) || is_of(e, "humidifier"@) || is_of(e, "climate"@) || is_of(e, "cover"@) || is_of(
                e,
                "input_number"@,
            ) || is_of(e, "number"@)
        }),
{
    reveal_names();
}

// ----- Kinds of entities ----------------------------------------------------------------------

/// Whether a light has a mode beyond on and off, or does not tell its modes.
pub open spec fn dims(e: EntityModel) -> bool {
    let modes = e.attr_list("supported_color_modes"@);
    e.attr("supported_color_modes"@) is Some ==> exists|i: int| 0 <= i < modes.len() && (#[trigger] modes[i]) != "onoff"@ && modes[i] != "unknown"@
}

/// Whether a light has a color temperature: it is among its modes or, if it does not tell them, it is at
/// one.
pub open spec fn warms(e: EntityModel) -> bool {
    if e.attr("supported_color_modes"@) is Some {
        e.attr_list("supported_color_modes"@).contains("color_temp"@)
    } else {
        e.attr("color_temp_kelvin"@) is Some
    }
}

proof fn lemma_dims(e: EntityModel)
    ensures
        dims(e) == super::actions::dimmable(e),
        warms(e) == super::actions::warmable(e),
{
    let modes = e.attr_list("supported_color_modes"@);
    if e.attr("supported_color_modes"@) is Some {
        assert(super::actions::modes(e) == Some(modes));
        if super::actions::dimmable(e) {
            let i = choose|i: int| 0 <= i < modes.len() && super::actions::more_than_onoff(#[trigger] modes[i]);
            assert(modes[i] != "onoff"@ && modes[i] != "unknown"@);
        }
        if dims(e) {
            let i = choose|i: int| 0 <= i < modes.len() && (#[trigger] modes[i]) != "onoff"@ && modes[i] != "unknown"@;
            assert(super::actions::more_than_onoff(modes[i]));
        }
    }
}

/// A light is toggled; if it has more modes than on and off it is dimmed by ten per cent, and if it has a
/// color temperature that goes up and down.
pub proof fn law_lights(e: EntityModel, a: Action)
    requires
        is_of(e, "light"@),
    ensures
        match a {
            Action::Primary => does(e, a, "toggle"@),
            Action::Increase => if dims(e) {
                exists|n: NumberModel| #[trigger] sets(e, a, "turn_on"@, "brightness_step_pct"@, JsonModel::Number(n)) && n.micros == 10_000_000 && n.text
                    == seq!['1', '0']
            } else {
                nothing(e, a)
            },
            Action::Decrease => if dims(e) {
                exists|n: NumberModel| #[trigger] sets(e, a, "turn_on"@, "brightness_step_pct"@, JsonModel::Number(n)) && n.micros == -10_000_000 && n.text
                    == seq!['-', '1', '0']
            } else {
                nothing(e, a)
            },
            Action::SecondaryUp => if warms(e) { steps(e, a, "turn_on"@, "color_temp_kelvin"@, e.steps.up) } else { nothing(e, a) },
            Action::SecondaryDown => if warms(e) { steps(e, a, "turn_on"@, "color_temp_kelvin"@, e.steps.down) } else { nothing(e, a) },
            _ => nothing(e, a),
        },
{
    lemma_dims(e);
    reveal_with_fuel(crate::text::decimal, 3);
    let ten = crate::json::whole(10);
    let less = crate::json::whole(-10);
    assert(ten.text =~= seq!['1', '0']);
    assert(less.text =~= seq!['-', '1', '0']);
    if dims(e) && a == Action::Increase {
        assert(sets(e, a, "turn_on"@, "brightness_step_pct"@, JsonModel::Number(ten)));
    }
    if dims(e) && a == Action::Decrease {
        assert(sets(e, a, "turn_on"@, "brightness_step_pct"@, JsonModel::Number(less)));
    }
}

/// What is only on or off is toggled; scenes and scripts are run, scripts are stopped, automations are
/// switched and triggered, and buttons are pressed.
pub proof fn law_simple_controls(e: EntityModel, a: Action)
    ensures
        is_of(e, "switch"@) || is_of(e, "input_boolean"@) || is_of(e, "siren"@) ==> if a == Action::Primary { does(e, a, "toggle"@) } else { nothing(
            e,
            a,
        ) },
        is_of(e, "scene"@) ==> if a == Action::Primary { does(e, a, "turn_on"@) } else { nothing(e, a) },
        is_of(e, "script"@) ==> match a {
            Action::Primary => does(e, a, "turn_on"@),
            Action::Stop => does(e, a, "turn_off"@),
            _ => nothing(e, a),
        },
        is_of(e, "automation"@) ==> match a {
            Action::Primary => does(e, a, "toggle"@),
            Action::Trigger => does(e, a, "trigger"@),
            _ => nothing(e, a),
        },
        is_of(e, "button"@) || is_of(e, "input_button"@) ==> if a == Action::Primary { does(e, a, "press"@) } else { nothing(e, a) },
{
    reveal_names();
}

/// Nothing but an automation is triggered.
pub proof fn law_only_automations_are_triggered(e: EntityModel)
    ensures
        is_of(e, "automation"@) ==> does(e, Action::Trigger, "trigger"@),
        !is_of(e, "automation"@) ==> nothing(e, Action::Trigger),
{
    reveal_names();
}

/// A humidifier and a thermostat are toggled and their target goes up and down; a thermostat's mode goes
/// round.
pub proof fn law_climate(e: EntityModel, a: Action)
    ensures
        is_of(e, "humidifier"@) && e.attr_number("humidity"@) is Some ==> match a {
            Action::Primary => does(e, a, "toggle"@),
            Action::Increase => steps(e, a, "set_humidity"@, "humidity"@, e.steps.up),
            Action::Decrease => steps(e, a, "set_humidity"@, "humidity"@, e.steps.down),
            _ => nothing(e, a),
        },
        is_of(e, "humidifier"@) && e.attr_number("humidity"@) is None ==> if a == Action::Primary { does(e, a, "toggle"@) } else { nothing(e, a) },
        is_of(e, "climate"@) && e.attr_number("temperature"@) is None && (a == Action::Increase || a == Action::Decrease) ==> nothing(e, a),
        is_of(e, "climate"@) && e.attr_number("temperature"@) is Some && can(e, 1) ==> {
            &&& a == Action::Increase ==> steps(e, a, "set_temperature"@, "temperature"@, e.steps.up)
            &&& a == Action::Decrease ==> steps(e, a, "set_temperature"@, "temperature"@, e.steps.down)
        },
        is_of(e, "climate"@) ==> match a {
            Action::Primary => does(e, a, "toggle"@),
            Action::Increase | Action::Decrease => can(e, 1) || nothing(e, a),
            Action::CycleMode => match super::actions::following(e.attr_list("hvac_modes"@), e.state) {
                Some(mode) => sets(e, a, "set_hvac_mode"@, "hvac_mode"@, JsonModel::Text(mode)),
                None => nothing(e, a),
            },
            _ => nothing(e, a),
        },
{
    reveal_names();
}

/// A fan is toggled, and goes faster and slower if it has speeds.
pub proof fn law_fans(e: EntityModel, a: Action)
    requires
        is_of(e, "fan"@),
    ensures
        match a {
            Action::Primary => does(e, a, "toggle"@),
            Action::Increase | Action::SecondaryUp => if can(e, 1) { does(e, a, "increase_speed"@) } else { nothing(e, a) },
            Action::Decrease | Action::SecondaryDown => if can(e, 1) { does(e, a, "decrease_speed"@) } else { nothing(e, a) },
            _ => nothing(e, a),
        },
{
    reveal_names();
}

/// Covers and valves are opened, closed and stopped as far as they can be; a cover is moved to a position.
pub proof fn law_covers(e: EntityModel, a: Action)
    ensures
        is_of(e, "cover"@) ==> match a {
            Action::Primary => if can(e, 3) { does(e, a, "toggle"@) } else { toggles_anything(e, a) },
            Action::Open => if can(e, 1) { does(e, a, "open_cover"@) } else { nothing(e, a) },
            Action::Close => if can(e, 2) { does(e, a, "close_cover"@) } else { nothing(e, a) },
            Action::Stop => if can(e, 8) { does(e, a, "stop_cover"@) } else { nothing(e, a) },
            Action::Increase => if can(e, 4) && e.attr_number("current_position"@) is Some {
                steps(e, a, "set_cover_position"@, "position"@, e.steps.up)
            } else {
                nothing(e, a)
            },
            Action::Decrease => if can(e, 4) && e.attr_number("current_position"@) is Some {
                steps(e, a, "set_cover_position"@, "position"@, e.steps.down)
            } else {
                nothing(e, a)
            },
            _ => nothing(e, a),
        },
        is_of(e, "valve"@) ==> match a {
            Action::Primary => if can(e, 3) { does(e, a, "toggle"@) } else { toggles_anything(e, a) },
            Action::Open => if can(e, 1) { does(e, a, "open_valve"@) } else { nothing(e, a) },
            Action::Close => if can(e, 2) { does(e, a, "close_valve"@) } else { nothing(e, a) },
            Action::Stop => if can(e, 8) { does(e, a, "stop_valve"@) } else { nothing(e, a) },
            _ => nothing(e, a),
        },
{
    reveal_names();
}

/// A player that is off is turned on, any other plays or pauses; its volume, tracks and sources are changed
/// as far as they can be.
pub proof fn law_players(e: EntityModel, a: Action)
    requires
        is_of(e, "media_player"@),
    ensures
        match a {
            Action::Primary => if e.state == "off"@ {
                if can(e, 128) { does(e, a, "turn_on"@) } else { nothing(e, a) }
            } else {
                if can(e, 16385) { does(e, a, "media_play_pause"@) } else { nothing(e, a) }
            },
            Action::Increase => if can(e, 1028) { does(e, a, "volume_up"@) } else { nothing(e, a) },
            Action::Decrease => if can(e, 1028) { does(e, a, "volume_down"@) } else { nothing(e, a) },
            Action::Next => if can(e, 32) { does(e, a, "media_next_track"@) } else { nothing(e, a) },
            Action::Prev => if can(e, 16) { does(e, a, "media_previous_track"@) } else { nothing(e, a) },
            Action::Stop => if can(e, 4096) { does(e, a, "media_stop"@) } else { nothing(e, a) },
            Action::CycleMode => {
                let current = match e.attr_str("source"@) {
                    Some(s) => s,
                    None => Seq::empty(),
                };
                match super::actions::following(e.attr_list("source_list"@), current) {
                    Some(source) => if can(e, 2048) {
                        sets(e, a, "select_source"@, "source"@, JsonModel::Text(source))
                    } else {
                        nothing(e, a)
                    },
                    None => nothing(e, a),
                }
            },
            _ => nothing(e, a),
        },
{
    reveal_names();
}

/// A lock that is locked is unlocked, any other is locked. One that can is opened.
pub proof fn law_locks(e: EntityModel, a: Action)
    requires
        is_of(e, "lock"@),
    ensures
        match a {
            Action::Primary => if e.state == "locked"@ { does(e, a, "unlock"@) } else { does(e, a, "lock"@) },
            Action::Open => if can(e, 1) { does(e, a, "open"@) } else { nothing(e, a) },
            _ => nothing(e, a),
        },
{
    reveal_names();
}

/// A vacuum that cleans is sent home, any other is started.
pub proof fn law_vacuums(e: EntityModel, a: Action)
    requires
        is_of(e, "vacuum"@),
    ensures
        match a {
            Action::Primary => if e.state == "cleaning"@ {
                if can(e, 16) { does(e, a, "return_to_base"@) } else { nothing(e, a) }
            } else {
                if can(e, 8192) { does(e, a, "start"@) } else { nothing(e, a) }
            },
            Action::Stop => if can(e, 8) { does(e, a, "stop"@) } else { nothing(e, a) },
            _ => nothing(e, a),
        },
{
    reveal_names();
}

/// A number goes up and down; of options the next is selected, after the last the first.
pub proof fn law_helpers(e: EntityModel, a: Action)
    ensures
        is_of(e, "input_number"@) || is_of(e, "number"@) ==> match a {
            Action::Increase => steps(e, a, "set_value"@, "value"@, e.steps.up),
            Action::Decrease => steps(e, a, "set_value"@, "value"@, e.steps.down),
            _ => toggles_anything(e, a),
        },
        is_of(e, "input_select"@) || is_of(e, "select"@) ==> match a {
            Action::Primary | Action::CycleMode => sets(e, a, "select_next"@, "cycle"@, JsonModel::Bool(true)),
            _ => nothing(e, a),
        },
{
    reveal_names();
}

/// What only reports has no controls. Anything else that has none of its own is toggled if it is on or off.
pub proof fn law_other_entities(e: EntityModel, a: Action)
    requires
        !is_of(e, "light"@) && !is_of(e, "switch"@) && !is_of(e, "input_boolean"@) && !is_of(e, "siren"@) && !is_of(e, "humidifier"@),
        !is_of(e, "fan"@) && !is_of(e, "climate"@) && !is_of(e, "cover"@) && !is_of(e, "valve"@) && !is_of(e, "media_player"@),
        !is_of(e, "lock"@) && !is_of(e, "vacuum"@) && !is_of(e, "scene"@) && !is_of(e, "script"@) && !is_of(e, "automation"@),
        !is_of(e, "button"@) && !is_of(e, "input_button"@) && !is_of(e, "input_number"@) && !is_of(e, "number"@),
        !is_of(e, "input_select"@) && !is_of(e, "select"@),
    ensures
        is_of(e, "sensor"@) || is_of(e, "binary_sensor"@) || is_of(e, "sun"@) || is_of(e, "weather"@) || is_of(e, "person"@) || is_of(
            e,
            "device_tracker"@,
        ) || is_of(e, "zone"@) || is_of(e, "update"@) || is_of(e, "event"@) ==> nothing(e, a),
        !(is_of(e, "sensor"@) || is_of(e, "binary_sensor"@) || is_of(e, "sun"@) || is_of(e, "weather"@) || is_of(e, "person"@) || is_of(
            e,
            "device_tracker"@,
        ) || is_of(e, "zone"@) || is_of(e, "update"@) || is_of(e, "event"@)) ==> toggles_anything(e, a),
{
}

/// Nothing but locks and what moves a garage door, a gate or a door is confirmed first.
pub proof fn law_only_openings_are_confirmed(e: EntityModel, a: Action)
    requires
        super::actions::risky(e, a),
    ensures
        is_of(e, "lock"@) || ((is_of(e, "cover"@) || is_of(e, "valve"@)) && a != Action::Stop && (e.attr_str("device_class"@) == Some("garage"@)
            || e.attr_str("device_class"@) == Some("gate"@) || e.attr_str("device_class"@) == Some("door"@))),
{
}

// ----- Words ---------------------------------------------------------------------------------

/// A call is described by its service, with blanks for underscores, and then by its data: the value alone
/// where the service is named for it, and else with what it is of.
pub proof fn law_calls_are_described(c: CallModel, k: Seq<char>, v: JsonModel, i: int)
    requires
        0 <= i < c.service.len(),
    ensures
        super::actions::described(c).len() >= c.service.len(),
        super::actions::described(c)[i] == if c.service[i] == '_' { ' ' } else { c.service[i] },
        c.data.len() == 0 ==> super::actions::described(c).len() == c.service.len(),
        ({
            let shown = match v {
                JsonModel::Text(s) => s,
                _ => crate::json::written(v),
            };
            let told = super::actions::described_data(c.service, seq![(k, v)]);
            k != "cycle"@ ==> if crate::text::ends(c.service, k) {
                told == " "@ + shown
            } else {
                told == " "@ + k.map_values(|x: char| if x == '_' { ' ' } else { x }) + "="@ + shown
            }
        }),
{
    reveal_with_fuel(super::actions::described_data, 2);
    assert(seq![(k, v)].drop_last() =~= Seq::empty());
    let shown = super::actions::shown(v);
    assert(Seq::<char>::empty() + (" "@ + shown) =~= " "@ + shown);
    let named = " "@ + crate::text::swapped(k, '_', ' ') + "="@ + shown;
    assert(Seq::<char>::empty() + named =~= named);
}

} // verus!
