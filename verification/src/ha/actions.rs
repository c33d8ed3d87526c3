//! Maps a key-level [`Action`] on an entity to the Home Assistant service call it means.

use super::types::{AttributesModel, CallModel, EntityModel, EntityState, ServiceCall};
use crate::json::{Json, JsonModel, Number, NumberModel};
use crate::text;
use crate::text::same;
use vstd::prelude::*;

verus! {

#[derive(Debug, Clone, Copy, PartialEq, Eq, Structural)]
pub enum Action {
    /// Enter / Space: toggle, activate, press.
    Primary,
    /// `+` / `-`: brightness, target temperature, volume, position, value.
    Increase,
    Decrease,
    /// `]` / `[`: color temperature, fan speed.
    SecondaryUp,
    SecondaryDown,
    /// `m`: HVAC mode, select option, media source.
    CycleMode,
    Open,
    Close,
    Stop,
    /// `x`: trigger an automation.
    Trigger,
    /// `n` / `p`: next / previous media track.
    Next,
    Prev,
}

// Bits of the `supported_features` attribute, per domain (HA `*EntityFeature` enums).

pub const COVER_OPEN: u64 = 1;
pub const COVER_CLOSE: u64 = 2;
pub const COVER_OPEN_OR_CLOSE: u64 = 3;
pub const COVER_SET_POSITION: u64 = 4;
pub const COVER_STOP: u64 = 8;

pub const VALVE_OPEN: u64 = 1;
pub const VALVE_CLOSE: u64 = 2;
pub const VALVE_OPEN_OR_CLOSE: u64 = 3;
pub const VALVE_STOP: u64 = 8;

pub const FAN_SET_SPEED: u64 = 1;

pub const CLIMATE_TARGET_TEMPERATURE: u64 = 1;

pub const LOCK_OPEN: u64 = 1;

pub const MEDIA_PAUSE_OR_PLAY: u64 = 16385;
pub const MEDIA_PREVIOUS_TRACK: u64 = 16;
pub const MEDIA_NEXT_TRACK: u64 = 32;
pub const MEDIA_TURN_ON: u64 = 128;
pub const MEDIA_VOLUME: u64 = 1028;
pub const MEDIA_SELECT_SOURCE: u64 = 2048;
pub const MEDIA_STOP: u64 = 4096;

pub const VACUUM_STOP: u64 = 8;
pub const VACUUM_RETURN_HOME: u64 = 16;
pub const VACUUM_START: u64 = 8192;

pub const BRIGHTNESS_STEP_PCT: i32 = 10;

// ----- Levels ----------------------------------------------------------------

/// A number that goes into the stepping of a level.
#[derive(Debug, PartialEq)]
pub enum Operand {
    /// One that the entity reports.
    Given(Number),
    /// The number that this text is read as.
    Written(String),
    /// So many thousandths.
    Thousandths(i64),
    /// Midway between the least and the greatest value.
    Middle,
    /// The least number there is.
    Lowest,
    /// The greatest number there is.
    Highest,
}

/// How a level is stepped: from `cur` by `by`, within `min` and `max`.
#[derive(Debug, PartialEq)]
pub struct Level {
    pub cur: Operand,
    pub by: Operand,
    pub min: Operand,
    pub max: Operand,
    /// Whether the new value lies on the grid of whole steps, or is only rounded.
    pub grid: bool,
    /// Whether the new value is set as a whole number.
    pub whole: bool,
}

/// What an [`Operand`] stands for.
pub enum OperandModel {
    Given(NumberModel),
    Written(Seq<char>),
    Thousandths(i64),
    Middle,
    Lowest,
    Highest,
}

/// What a [`Level`] stands for.
pub struct LevelModel {
    pub cur: OperandModel,
    pub by: OperandModel,
    pub min: OperandModel,
    pub max: OperandModel,
    pub grid: bool,
    pub whole: bool,
}

impl View for Operand {
    type V = OperandModel;

    open spec fn view(&self) -> OperandModel {
        match self {
            Operand::Given(n) => OperandModel::Given(n@),
            Operand::Written(s) => OperandModel::Written(s@),
            Operand::Thousandths(n) => OperandModel::Thousandths(*n),
            Operand::Middle => OperandModel::Middle,
            Operand::Lowest => OperandModel::Lowest,
            Operand::Highest => OperandModel::Highest,
        }
    }
}

impl View for Level {
    type V = LevelModel;

    open spec fn view(&self) -> LevelModel {
        LevelModel {
            cur: self.cur@,
            by: self.by@,
            min: self.min@,
            max: self.max@,
            grid: self.grid,
            whole: self.whole,
        }
    }
}

impl DeepView for Level {
    type V = LevelModel;

    open spec fn deep_view(&self) -> LevelModel {
        self@
    }
}

/// The number in the attribute `key`, or else `other`.
pub open spec fn operand(e: EntityModel, key: Seq<char>, other: OperandModel) -> OperandModel {
    match e.attr_number(key) {
        Some(n) => OperandModel::Given(n),
        None => other,
    }
}

/// How the entity's level is stepped, where it has one: a light's color temperature, a humidifier's
/// humidity, a thermostat's temperature, a cover's position, or a number.
pub open spec fn level(e: EntityModel) -> Option<LevelModel> {
    let d = super::types::domain(e.entity_id);
    if d == "light"@ {
        Some(
            LevelModel {
                cur: operand(e, "color_temp_kelvin"@, OperandModel::Middle),
                by: OperandModel::Thousandths(250_000),
                min: operand(e, "min_color_temp_kelvin"@, OperandModel::Thousandths(2_000_000)),
                max: operand(e, "max_color_temp_kelvin"@, OperandModel::Thousandths(6_500_000)),
                grid: false,
                whole: true,
            },
        )
    } else if d == "humidifier"@ {
        match e.attr_number("humidity"@) {
            Some(cur) => Some(
                LevelModel {
                    cur: OperandModel::Given(cur),
                    by: OperandModel::Thousandths(5_000),
                    min: operand(e, "min_humidity"@, OperandModel::Thousandths(0)),
                    max: operand(e, "max_humidity"@, OperandModel::Thousandths(100_000)),
                    grid: true,
                    whole: true,
                },
            ),
            None => None,
        }
    } else if d == "climate"@ {
        match e.attr_number("temperature"@) {
            Some(cur) => Some(
                LevelModel {
                    cur: OperandModel::Given(cur),
                    by: operand(e, "target_temp_step"@, OperandModel::Thousandths(500)),
                    min: operand(e, "min_temp"@, OperandModel::Lowest),
                    max: operand(e, "max_temp"@, OperandModel::Highest),
                    grid: true,
                    whole: false,
                },
            ),
            None => None,
        }
    } else if d == "cover"@ {
        match e.attr_number("current_position"@) {
            Some(cur) => Some(
                LevelModel {
                    cur: OperandModel::Given(cur),
                    by: OperandModel::Thousandths(10_000),
                    min: OperandModel::Thousandths(0),
                    max: OperandModel::Thousandths(100_000),
                    grid: true,
                    whole: true,
                },
            ),
            None => None,
        }
    } else if d == "input_number"@ || d == "number"@ {
        Some(
            LevelModel {
                cur: OperandModel::Written(e.state),
                by: operand(e, "step"@, OperandModel::Thousandths(1_000)),
                min: operand(e, "min"@, OperandModel::Lowest),
                max: operand(e, "max"@, OperandModel::Highest),
                grid: true,
                whole: false,
            },
        )
    } else {
        None
    }
}

/// The number in the attribute `key`, or else `other`.
fn attr_or(e: &EntityState, key: &str, other: Operand) -> (r: Operand)
    ensures
        r@ == operand(e@, key@, other@),
{
    match e.attr_f64(key) {
        Some(n) => Operand::Given(n.clone()),
        None => other,
    }
}

/// How the entity's level is stepped, where it has one.
pub fn level_of(e: &EntityState) -> (r: Option<Level>)
    ensures
        r.deep_view() == level(e@),
{
    let d = e.domain();
    if same(d, "light") {
        Some(
            Level {
                cur: attr_or(e, "color_temp_kelvin", Operand::Middle),
                by: Operand::Thousandths(250_000),
                min: attr_or(e, "min_color_temp_kelvin", Operand::Thousandths(2_000_000)),
                max: attr_or(e, "max_color_temp_kelvin", Operand::Thousandths(6_500_000)),
                grid: false,
                whole: true,
            },
        )
    } else if same(d, "humidifier") {
        match e.attr_f64("humidity") {
            Some(cur) => Some(
                Level {
                    cur: Operand::Given(cur.clone()),
                    by: Operand::Thousandths(5_000),
                    min: attr_or(e, "min_humidity", Operand::Thousandths(0)),
                    max: attr_or(e, "max_humidity", Operand::Thousandths(100_000)),
                    grid: true,
                    whole: true,
                },
            ),
            None => None,
        }
    } else if same(d, "climate") {
        match e.attr_f64("temperature") {
            Some(cur) => Some(
                Level {
                    cur: Operand::Given(cur.clone()),
                    by: attr_or(e, "target_temp_step", Operand::Thousandths(500)),
                    min: attr_or(e, "min_temp", Operand::Lowest),
                    max: attr_or(e, "max_temp", Operand::Highest),
                    grid: true,
                    whole: false,
                },
            ),
            None => None,
        }
    } else if same(d, "cover") {
        match e.attr_f64("current_position") {
            Some(cur) => Some(
                Level {
                    cur: Operand::Given(cur.clone()),
                    by: Operand::Thousandths(10_000),
                    min: Operand::Thousandths(0),
                    max: Operand::Thousandths(100_000),
                    grid: true,
                    whole: true,
                },
            ),
            None => None,
        }
    } else if same(d, "input_number") || same(d, "number") {
        Some(
            Level {
                cur: Operand::Written(e.state.clone()),
                by: attr_or(e, "step", Operand::Thousandths(1_000)),
                min: attr_or(e, "min", Operand::Lowest),
                max: attr_or(e, "max", Operand::Highest),
                grid: true,
                whole: false,
            },
        )
    } else {
        None
    }
}

/// The value that one step of the entity's level sets.
pub open spec fn stepped(e: EntityModel, up: bool) -> Option<NumberModel> {
    if level(e) is None {
        None
    } else if up {
        e.steps.up
    } else {
        e.steps.down
    }
}

/// The value that one step of the entity's level sets.
fn step(e: &EntityState, up: bool) -> (r: Option<&Number>)
    ensures
        r.deep_view() == stepped(e@, up),
{
    if level_of(e).is_none() {
        None
    } else if up {
        e.steps.up.as_ref()
    } else {
        e.steps.down.as_ref()
    }
}

// ----- Capabilities -----------------------------------------------------------

/// Whether the entity advertises any of the `flags` in `supported_features`.
/// An entity that doesn't report the attribute at all is assumed capable.
pub open spec fn capable(e: EntityModel, flags: u64) -> bool {
    match e.attr("supported_features"@) {
        Some(v) => match crate::json::uint(v) {
            Some(bits) => bits & flags != 0,
            None => true,
        },
        None => true,
    }
}

/// Whether the entity advertises any of the `flags` in `supported_features`.
/// An entity that doesn't report the attribute at all is assumed capable, so an unknown
/// device still gets its controls and Home Assistant remains the judge.
fn supports(e: &EntityState, flags: u64) -> (r: bool)
    ensures
        r == capable(e@, flags),
{
    match e.attributes.fetch("supported_features") {
        Some(v) => match v.as_u64() {
            Some(bits) => bits & flags != 0,
            None => true,
        },
        None => true,
    }
}

/// `supported_color_modes` when the light reports it.
pub open spec fn modes(e: EntityModel) -> Option<Seq<Seq<char>>> {
    if e.attr("supported_color_modes"@) is Some {
        Some(e.attr_list("supported_color_modes"@))
    } else {
        None
    }
}

/// Whether a color mode tells of more than plain on/off.
pub open spec fn more_than_onoff(mode: Seq<char>) -> bool {
    mode != "onoff"@ && mode != "unknown"@
}

/// Anything beyond plain on/off can be dimmed.
pub open spec fn dimmable(e: EntityModel) -> bool {
    match modes(e) {
        Some(m) => exists|i: int| 0 <= i < m.len() && more_than_onoff(#[trigger] m[i]),
        None => true,
    }
}

/// Whether the light's color temperature can be set.
pub open spec fn warmable(e: EntityModel) -> bool {
    match modes(e) {
        Some(m) => m.contains("color_temp"@),
        None => e.attr("color_temp_kelvin"@) is Some,
    }
}

/// `supported_color_modes` when the light reports it.
fn color_modes(e: &EntityState) -> (r: Option<Vec<&str>>)
    ensures
        r.deep_view() == modes(e@),
{
    if e.attributes.fetch("supported_color_modes").is_some() {
        Some(e.attr_list("supported_color_modes"))
    } else {
        None
    }
}

/// Anything beyond plain on/off can be dimmed.
fn supports_brightness(e: &EntityState) -> (r: bool)
    ensures
        r == dimmable(e@),
{
    match color_modes(e) {
        Some(m) => {
            let ghost all = m.deep_view();
            let n: usize = m.len();
            for i in 0..n
                invariant
                    n == m@.len(),
                    all == m.deep_view(),
                    modes(e@) == Some(all),
                    forall|j: int| 0 <= j < i ==> !more_than_onoff(#[trigger] all[j]),
            {
                assert(all[i as int] == m@[i as int]@);
                if !same(m[i], "onoff") && !same(m[i], "unknown") {
                    assert(more_than_onoff(modes(e@)->0[i as int]));
                    return true;
                }
            }
            false
        },
        None => true,
    }
}

fn supports_color_temp(e: &EntityState) -> (r: bool)
    ensures
        r == warmable(e@),
{
    match color_modes(e) {
        Some(m) => {
            let ghost all = m.deep_view();
            let n: usize = m.len();
            for i in 0..n
                invariant
                    n == m@.len(),
                    all == m.deep_view(),
                    modes(e@) == Some(all),
                    forall|j: int| 0 <= j < i ==> #[trigger] all[j] != "color_temp"@,
            {
                assert(all[i as int] == m@[i as int]@);
                if same(m[i], "color_temp") {
                    return true;
                }
            }
            false
        },
        None => e.attributes.fetch("color_temp_kelvin").is_some(),
    }
}

/// Domains whose entities only report.
pub open spec fn read_only(d: Seq<char>) -> bool {
    ||| d == "sensor"@
    ||| d == "binary_sensor"@
    ||| d == "sun"@
    ||| d == "weather"@
    ||| d == "person"@
    ||| d == "device_tracker"@
    ||| d == "zone"@
    ||| d == "update"@
    ||| d == "event"@
}

fn is_read_only(domain: &str) -> (r: bool)
    ensures
        r == read_only(domain@),
{
    same(domain, "sensor") || same(domain, "binary_sensor") || same(domain, "sun") || same(domain, "weather")
        || same(domain, "person") || same(domain, "device_tracker") || same(domain, "zone")
        || same(domain, "update") || same(domain, "event")
}

/// Where `x` first stands in `l`; the length of `l` where it does not.
pub open spec fn position<T>(l: Seq<T>, x: T) -> int
    decreases l.len(),
{
    if l.len() == 0 || l[0] == x {
        0
    } else {
        1 + position(l.drop_first(), x)
    }
}

/// The option after `current`, going round; the first one where `current` is none of them.
pub open spec fn following(options: Seq<Seq<char>>, current: Seq<char>) -> Option<Seq<char>> {
    let i = position(options, current);
    if options.len() == 0 {
        None
    } else if i + 1 < options.len() {
        Some(options[i + 1])
    } else {
        Some(options[0])
    }
}

/// The option after `current`, going round; the first one where `current` is none of them.
pub fn cycle<'a>(options: &[&'a str], current: &str) -> (r: Option<&'a str>)
    ensures
        r.deep_view() == following(options.deep_view(), current@),
{
    let ghost all = options.deep_view();
    let n: usize = options.len();
    if n == 0 {
        return None;
    }
    let mut i: usize = 0;
    assert(all.skip(0) =~= all);
    while i < n && !same(options[i], current)
        invariant
            n == options@.len(),
            all == options.deep_view(),
            0 <= i <= n,
            position(all, current@) == i + position(all.skip(i as int), current@),
        decreases n - i,
    {
        assert(all.skip(i as int).drop_first() =~= all.skip(i + 1));
        i = i + 1;
    }
    if i < n && i + 1 < n {
        assert(all[i + 1] == options@[i + 1]@);
        Some(options[i + 1])
    } else {
        assert(all[0] == options@[0]@);
        Some(options[0])
    }
}

// ----- Services ---------------------------------------------------------------

/// Toggling anything with an on/off state that is not only a report.
pub open spec fn generic_service(e: EntityModel, a: Action) -> Option<CallModel> {
    if a == Action::Primary && (e.state == "on"@ || e.state == "off"@) && !read_only(super::types::domain(e.entity_id)) {
        Some(super::types::plain_call("homeassistant"@, "toggle"@, e.entity_id))
    } else {
        None
    }
}

/// A call of one of the entity's own domain's services.
pub open spec fn own(e: EntityModel, service: Seq<char>) -> Option<CallModel> {
    Some(super::types::plain_call(super::types::domain(e.entity_id), service, e.entity_id))
}

/// A call of one of the entity's own domain's services, with one piece of data.
pub open spec fn own_with(
    e: EntityModel,
    service: Seq<char>,
    key: Seq<char>,
    value: JsonModel,
) -> Option<CallModel> {
    Some(super::types::call_with(super::types::domain(e.entity_id), service, e.entity_id, key, value))
}

/// A call that sets the stepped level, where there is one.
pub open spec fn set_level(e: EntityModel, up: bool, service: Seq<char>, key: Seq<char>) -> Option<CallModel> {
    match stepped(e, up) {
        Some(n) => own_with(e, service, key, JsonModel::Number(n)),
        None => None,
    }
}

/// A call that sets the next of some options, where there are any.
pub open spec fn set_next(
    e: EntityModel,
    options: Seq<Seq<char>>,
    current: Seq<char>,
    service: Seq<char>,
    key: Seq<char>,
) -> Option<CallModel> {
    match following(options, current) {
        Some(next) => own_with(e, service, key, JsonModel::Text(next)),
        None => None,
    }
}

/// The service of its domain that `action` means on an entity; `None` where the domain has none for
/// it.
pub open spec fn service(e: EntityModel, action: Action) -> Option<CallModel> {
    let d = super::types::domain(e.entity_id);
    if d == "light"@ {
        match action {
            Action::Primary => own(e, "toggle"@),
            Action::Increase => if dimmable(e) {
                own_with(e, "turn_on"@, "brightness_step_pct"@, JsonModel::Number(crate::json::whole(10)))
            } else {
                None
            },
            Action::Decrease => if dimmable(e) {
                own_with(e, "turn_on"@, "brightness_step_pct"@, JsonModel::Number(crate::json::whole(-10)))
            } else {
                None
            },
            Action::SecondaryUp => if warmable(e) {
                set_level(e, true, "turn_on"@, "color_temp_kelvin"@)
            } else {
                None
            },
            Action::SecondaryDown => if warmable(e) {
                set_level(e, false, "turn_on"@, "color_temp_kelvin"@)
            } else {
                None
            },
            _ => None,
        }
    } else if d == "switch"@ || d == "input_boolean"@ || d == "siren"@ {
        match action {
            Action::Primary => own(e, "toggle"@),
            _ => None,
        }
    } else if d == "humidifier"@ {
        match action {
            Action::Primary => own(e, "toggle"@),
            Action::Increase => set_level(e, true, "set_humidity"@, "humidity"@),
            Action::Decrease => set_level(e, false, "set_humidity"@, "humidity"@),
            _ => None,
        }
    } else if d == "fan"@ {
        match action {
            Action::Primary => own(e, "toggle"@),
            Action::Increase | Action::SecondaryUp => if capable(e, FAN_SET_SPEED) { own(e, "increase_speed"@) } else { None },
            Action::Decrease | Action::SecondaryDown => if capable(e, FAN_SET_SPEED) { own(e, "decrease_speed"@) } else { None },
            _ => None,
        }
    } else if d == "climate"@ {
        match action {
            Action::Primary => own(e, "toggle"@),
            Action::Increase => if capable(e, CLIMATE_TARGET_TEMPERATURE) {
                set_level(e, true, "set_temperature"@, "temperature"@)
            } else {
                None
            },
            Action::Decrease => if capable(e, CLIMATE_TARGET_TEMPERATURE) {
                set_level(e, false, "set_temperature"@, "temperature"@)
            } else {
                None
            },
            Action::CycleMode => set_next(e, e.attr_list("hvac_modes"@), e.state, "set_hvac_mode"@, "hvac_mode"@),
            _ => None,
        }
    } else if d == "cover"@ {
        match action {
            Action::Primary => if capable(e, COVER_OPEN_OR_CLOSE) { own(e, "toggle"@) } else { generic_service(e, action) },
            Action::Open => if capable(e, COVER_OPEN) { own(e, "open_cover"@) } else { None },
            Action::Close => if capable(e, COVER_CLOSE) { own(e, "close_cover"@) } else { None },
            Action::Stop => if capable(e, COVER_STOP) { own(e, "stop_cover"@) } else { None },
            Action::Increase => if capable(e, COVER_SET_POSITION) {
                set_level(e, true, "set_cover_position"@, "position"@)
            } else {
                None
            },
            Action::Decrease => if capable(e, COVER_SET_POSITION) {
                set_level(e, false, "set_cover_position"@, "position"@)
            } else {
                None
            },
            _ => None,
        }
    } else if d == "valve"@ {
        match action {
            Action::Primary => if capable(e, VALVE_OPEN_OR_CLOSE) { own(e, "toggle"@) } else { generic_service(e, action) },
            Action::Open => if capable(e, VALVE_OPEN) { own(e, "open_valve"@) } else { None },
            Action::Close => if capable(e, VALVE_CLOSE) { own(e, "close_valve"@) } else { None },
            Action::Stop => if capable(e, VALVE_STOP) { own(e, "stop_valve"@) } else { None },
            _ => None,
        }
    } else if d == "media_player"@ {
        match action {
            Action::Primary => if e.state == "off"@ {
                if capable(e, MEDIA_TURN_ON) { own(e, "turn_on"@) } else { None }
            } else if capable(e, MEDIA_PAUSE_OR_PLAY) {
                own(e, "media_play_pause"@)
            } else {
                None
            },
            Action::Increase => if capable(e, MEDIA_VOLUME) { own(e, "volume_up"@) } else { None },
            Action::Decrease => if capable(e, MEDIA_VOLUME) { own(e, "volume_down"@) } else { None },
            Action::Next => if capable(e, MEDIA_NEXT_TRACK) { own(e, "media_next_track"@) } else { None },
            Action::Prev => if capable(e, MEDIA_PREVIOUS_TRACK) { own(e, "media_previous_track"@) } else { None },
            Action::Stop => if capable(e, MEDIA_STOP) { own(e, "media_stop"@) } else { None },
            Action::CycleMode => if capable(e, MEDIA_SELECT_SOURCE) {
                let current = match e.attr_str("source"@) {
                    Some(s) => s,
                    None => Seq::empty(),
                };
                set_next(e, e.attr_list("source_list"@), current, "select_source"@, "source"@)
            } else {
                None
            },
            _ => None,
        }
    } else if d == "lock"@ {
        match action {
            Action::Primary => if e.state == "locked"@ { own(e, "unlock"@) } else { own(e, "lock"@) },
            Action::Open => if capable(e, LOCK_OPEN) { own(e, "open"@) } else { None },
            _ => None,
        }
    } else if d == "vacuum"@ {
        match action {
            Action::Primary => if e.state == "cleaning"@ {
                if capable(e, VACUUM_RETURN_HOME) { own(e, "return_to_base"@) } else { None }
            } else if capable(e, VACUUM_START) {
                own(e, "start"@)
            } else {
                None
            },
            Action::Stop => if capable(e, VACUUM_STOP) { own(e, "stop"@) } else { None },
            _ => None,
        }
    } else if d == "scene"@ {
        match action {
            Action::Primary => own(e, "turn_on"@),
            _ => None,
        }
    } else if d == "script"@ {
        match action {
            Action::Primary => own(e, "turn_on"@),
            Action::Stop => own(e, "turn_off"@),
            _ => None,
        }
    } else if d == "automation"@ {
        match action {
            Action::Primary => own(e, "toggle"@),
            Action::Trigger => own(e, "trigger"@),
            _ => None,
        }
    } else if d == "button"@ || d == "input_button"@ {
        match action {
            Action::Primary => own(e, "press"@),
            _ => None,
        }
    } else if d == "input_number"@ || d == "number"@ {
        match action {
            Action::Increase => set_level(e, true, "set_value"@, "value"@),
            Action::Decrease => set_level(e, false, "set_value"@, "value"@),
            _ => generic_service(e, action),
        }
    } else if d == "input_select"@ || d == "select"@ {
        match action {
            Action::Primary | Action::CycleMode => own_with(e, "select_next"@, "cycle"@, JsonModel::Bool(true)),
            _ => None,
        }
    } else {
        generic_service(e, action)
    }
}

fn call(e: &EntityState, service: &str) -> (r: ServiceCall)
    ensures
        Some(r@) == own(e@, service@),
{
    ServiceCall::new(e.domain(), service, e.entity_id.as_str())
}

fn call_with(e: &EntityState, service: &str, key: &str, value: Json) -> (r: ServiceCall)
    ensures
        Some(r@) == own_with(e@, service@, key@, value@),
{
    let plain = call(e, service);
    assert(crate::strmap::put(plain@.data, key@, value@) =~= seq![(key@, value@)]) by {
        crate::strmap::lemma_place(plain@.data, key@);
    }
    plain.with(key, value)
}

/// A call of the service, where the entity is capable of it.
fn call_if(able: bool, e: &EntityState, service: &str) -> (r: Option<ServiceCall>)
    ensures
        r.deep_view() == (if able { own(e@, service@) } else { None }),
{
    if able {
        Some(call(e, service))
    } else {
        None
    }
}

fn call_step(e: &EntityState, up: bool, service: &str, key: &str) -> (r: Option<ServiceCall>)
    ensures
        r.deep_view() == set_level(e@, up, service@, key@),
{
    match step(e, up) {
        Some(n) => Some(call_with(e, service, key, Json::number(n.clone()))),
        None => None,
    }
}

fn call_next(e: &EntityState, list: &str, current: &str, service: &str, key: &str) -> (r: Option<ServiceCall>)
    ensures
        r.deep_view() == set_next(e@, e@.attr_list(list@), current@, service@, key@),
{
    let options = e.attr_list(list);
    let slice = options.as_slice();
    assert(slice.deep_view() =~= options.deep_view());
    match cycle(slice, current) {
        Some(next) => Some(call_with(e, service, key, Json::text(next.to_owned()))),
        None => None,
    }
}

fn generic_call(e: &EntityState, action: Action) -> (r: Option<ServiceCall>)
    ensures
        r.deep_view() == generic_service(e@, action),
{
    if action == Action::Primary && (same(e.state.as_str(), "on") || same(e.state.as_str(), "off")) && !is_read_only(e.domain()) {
        Some(ServiceCall::new("homeassistant", "toggle", e.entity_id.as_str()))
    } else {
        None
    }
}

/// The service call that `action` means on the entity.
pub fn service_for(e: &EntityState, action: Action) -> (r: Option<ServiceCall>)
    ensures
        r.deep_view() == service(e@, action),
{
    let d = e.domain();
    if same(d, "light") {
        match action {
            Action::Primary => Some(call(e, "toggle")),
            Action::Increase => if supports_brightness(e) {
                Some(call_with(e, "turn_on", "brightness_step_pct", Json::signed(BRIGHTNESS_STEP_PCT)))
            } else {
                None
            },
            Action::Decrease => if supports_brightness(e) {
                Some(call_with(e, "turn_on", "brightness_step_pct", Json::signed(-BRIGHTNESS_STEP_PCT)))
            } else {
                None
            },
            Action::SecondaryUp => if supports_color_temp(e) {
                call_step(e, true, "turn_on", "color_temp_kelvin")
            } else {
                None
            },
            Action::SecondaryDown => if supports_color_temp(e) {
                call_step(e, false, "turn_on", "color_temp_kelvin")
            } else {
                None
            },
            _ => None,
        }
    } else if same(d, "switch") || same(d, "input_boolean") || same(d, "siren") {
        match action {
            Action::Primary => Some(call(e, "toggle")),
            _ => None,
        }
    } else if same(d, "humidifier") {
        match action {
            Action::Primary => Some(call(e, "toggle")),
            Action::Increase => call_step(e, true, "set_humidity", "humidity"),
            Action::Decrease => call_step(e, false, "set_humidity", "humidity"),
            _ => None,
        }
    } else if same(d, "fan") {
        match action {
            Action::Primary => Some(call(e, "toggle")),
            Action::Increase | Action::SecondaryUp => call_if(supports(e, FAN_SET_SPEED), e, "increase_speed"),
            Action::Decrease | Action::SecondaryDown => call_if(supports(e, FAN_SET_SPEED), e, "decrease_speed"),
            _ => None,
        }
    } else if same(d, "climate") {
        match action {
            Action::Primary => Some(call(e, "toggle")),
            Action::Increase => if supports(e, CLIMATE_TARGET_TEMPERATURE) {
                call_step(e, true, "set_temperature", "temperature")
            } else {
                None
            },
            Action::Decrease => if supports(e, CLIMATE_TARGET_TEMPERATURE) {
                call_step(e, false, "set_temperature", "temperature")
            } else {
                None
            },
            Action::CycleMode => call_next(e, "hvac_modes", e.state.as_str(), "set_hvac_mode", "hvac_mode"),
            _ => None,
        }
    } else if same(d, "cover") {
        match action {
            Action::Primary => if supports(e, COVER_OPEN_OR_CLOSE) {
                Some(call(e, "toggle"))
            } else {
                generic_call(e, action)
            },
            Action::Open => call_if(supports(e, COVER_OPEN), e, "open_cover"),
            Action::Close => call_if(supports(e, COVER_CLOSE), e, "close_cover"),
            Action::Stop => call_if(supports(e, COVER_STOP), e, "stop_cover"),
            Action::Increase => if supports(e, COVER_SET_POSITION) {
                call_step(e, true, "set_cover_position", "position")
            } else {
                None
            },
            Action::Decrease => if supports(e, COVER_SET_POSITION) {
                call_step(e, false, "set_cover_position", "position")
            } else {
                None
            },
            _ => None,
        }
    } else if same(d, "valve") {
        match action {
            Action::Primary => if supports(e, VALVE_OPEN_OR_CLOSE) {
                Some(call(e, "toggle"))
            } else {
                generic_call(e, action)
            },
            Action::Open => call_if(supports(e, VALVE_OPEN), e, "open_valve"),
            Action::Close => call_if(supports(e, VALVE_CLOSE), e, "close_valve"),
            Action::Stop => call_if(supports(e, VALVE_STOP), e, "stop_valve"),
            _ => None,
        }
    } else if same(d, "media_player") {
        match action {
            Action::Primary => if same(e.state.as_str(), "off") {
                call_if(supports(e, MEDIA_TURN_ON), e, "turn_on")
            } else {
                call_if(supports(e, MEDIA_PAUSE_OR_PLAY), e, "media_play_pause")
            },
            Action::Increase => call_if(supports(e, MEDIA_VOLUME), e, "volume_up"),
            Action::Decrease => call_if(supports(e, MEDIA_VOLUME), e, "volume_down"),
            Action::Next => call_if(supports(e, MEDIA_NEXT_TRACK), e, "media_next_track"),
            Action::Prev => call_if(supports(e, MEDIA_PREVIOUS_TRACK), e, "media_previous_track"),
            Action::Stop => call_if(supports(e, MEDIA_STOP), e, "media_stop"),
            Action::CycleMode => if supports(e, MEDIA_SELECT_SOURCE) {
                let nothing = String::new();
                assert(nothing@ =~= Seq::empty());
                let current = match e.attr_str("source") {
                    Some(s) => s,
                    None => nothing.as_str(),
                };
                call_next(e, "source_list", current, "select_source", "source")
            } else {
                None
            },
            _ => None,
        }
    } else if same(d, "lock") {
        match action {
            Action::Primary => if same(e.state.as_str(), "locked") {
                Some(call(e, "unlock"))
            } else {
                Some(call(e, "lock"))
            },
            Action::Open => call_if(supports(e, LOCK_OPEN), e, "open"),
            _ => None,
        }
    } else if same(d, "vacuum") {
        match action {
            Action::Primary => if same(e.state.as_str(), "cleaning") {
                call_if(supports(e, VACUUM_RETURN_HOME), e, "return_to_base")
            } else {
                call_if(supports(e, VACUUM_START), e, "start")
            },
            Action::Stop => call_if(supports(e, VACUUM_STOP), e, "stop"),
            _ => None,
        }
    } else if same(d, "scene") {
        match action {
            Action::Primary => Some(call(e, "turn_on")),
            _ => None,
        }
    } else if same(d, "script") {
        match action {
            Action::Primary => Some(call(e, "turn_on")),
            Action::Stop => Some(call(e, "turn_off")),
            _ => None,
        }
    } else if same(d, "automation") {
        match action {
            Action::Primary => Some(call(e, "toggle")),
            Action::Trigger => Some(call(e, "trigger")),
            _ => None,
        }
    } else if same(d, "button") || same(d, "input_button") {
        match action {
            Action::Primary => Some(call(e, "press")),
            _ => None,
        }
    } else if same(d, "input_number") || same(d, "number") {
        match action {
            Action::Increase => call_step(e, true, "set_value", "value"),
            Action::Decrease => call_step(e, false, "set_value", "value"),
            _ => generic_call(e, action),
        }
    } else if same(d, "input_select") || same(d, "select") {
        match action {
            Action::Primary | Action::CycleMode => Some(call_with(e, "select_next", "cycle", Json::flag(true))),
            _ => None,
        }
    } else {
        generic_call(e, action)
    }
}

// ----- Confirmation and hints ---------------------------------------------------

/// Whether the action could open a door, unlock something, etc.
pub open spec fn risky(e: EntityModel, action: Action) -> bool {
    let d = super::types::domain(e.entity_id);
    if d == "lock"@ {
        true
    } else if d == "cover"@ || d == "valve"@ {
        let class = e.attr_str("device_class"@);
        &&& action == Action::Primary || action == Action::Open || action == Action::Close || action == Action::Increase || action == Action::Decrease
        &&& class == Some("garage"@) || class == Some("gate"@) || class == Some("door"@)
    } else {
        false
    }
}

/// Actions that could open a door, unlock something, etc. ask for `y/n` first.
pub fn needs_confirm(e: &EntityState, action: Action) -> (r: bool)
    ensures
        r == risky(e@, action),
{
    let d = e.domain();
    if same(d, "lock") {
        true
    } else if same(d, "cover") || same(d, "valve") {
        let moves = match action {
            Action::Primary | Action::Open | Action::Close | Action::Increase | Action::Decrease => true,
            _ => false,
        };
        moves && match e.attr_str("device_class") {
            Some(c) => same(c, "garage") || same(c, "gate") || same(c, "door"),
            None => false,
        }
    } else {
        false
    }
}

/// The keys of the detail pane's hints, with the actions they stand for.
pub open spec fn hint_keys() -> Seq<(Action, Seq<char>)> {
    seq![
        (Action::Primary, "Enter"@),
        (Action::Increase, "+"@),
        (Action::Decrease, "-"@),
        (Action::SecondaryUp, "]"@),
        (Action::SecondaryDown, "["@),
        (Action::CycleMode, "m"@),
        (Action::Open, "o"@),
        (Action::Close, "c"@),
        (Action::Stop, "s"@),
        (Action::Trigger, "x"@),
        (Action::Next, "n"@),
        (Action::Prev, "p"@),
    ]
}

/// The hints for those of `keys` whose action applies to the entity.
pub open spec fn hints(e: EntityModel, keys: Seq<(Action, Seq<char>)>) -> Seq<(Seq<char>, Seq<char>)>
    decreases keys.len(),
{
    if keys.len() == 0 {
        Seq::empty()
    } else {
        match service(e, keys.last().0) {
            Some(c) => hints(e, keys.drop_last()).push((keys.last().1, described(c))),
            None => hints(e, keys.drop_last()),
        }
    }
}

/// Key hints for the detail pane: `(key, description)` for every action that applies.
pub fn available(e: &EntityState) -> (r: Vec<(&'static str, String)>)
    ensures
        r.deep_view() == hints(e@, hint_keys()),
{
    let keys: [(Action, &'static str); 12] = [
        (Action::Primary, "Enter"),
        (Action::Increase, "+"),
        (Action::Decrease, "-"),
        (Action::SecondaryUp, "]"),
        (Action::SecondaryDown, "["),
        (Action::CycleMode, "m"),
        (Action::Open, "o"),
        (Action::Close, "c"),
        (Action::Stop, "s"),
        (Action::Trigger, "x"),
        (Action::Next, "n"),
        (Action::Prev, "p"),
    ];
    let ghost all = hint_keys();
    assert forall|i: int| 0 <= i < 12 implies #[trigger] all[i] == (keys@[i].0, keys@[i].1@) by {}
    let mut out: Vec<(&'static str, String)> = Vec::new();
    assert(out.deep_view() =~= Seq::empty());
    for i in 0..12usize
        invariant
            keys@.len() == 12,
            all.len() == 12,
            forall|j: int| 0 <= j < 12 ==> #[trigger] all[j] == (keys@[j].0, keys@[j].1@),
            out.deep_view() == hints(e@, all.take(i as int)),
    {
        assert(all.take(i + 1).drop_last() =~= all.take(i as int));
        assert(all.take(i + 1).last() == all[i as int]);
        let ghost sofar = out.deep_view();
        if let Some(c) = service_for(e, keys[i].0) {
            let text = describe(&c);
            out.push((keys[i].1, text));
            assert(out.deep_view() =~= sofar.push((keys@[i as int].1@, text@)));
        }
    }
    assert(all.take(12) =~= all);
    out
}

/// A value as it is shown: a text as it is, anything else as JSON.
pub open spec fn shown(v: JsonModel) -> Seq<char> {
    match crate::json::text(v) {
        Some(s) => s,
        None => crate::json::written(v),
    }
}

/// How a call's data is described: the value alone where the service's name says what it is of,
/// else `key=value`. That options go round in a cycle is not told.
pub open spec fn described_data(service: Seq<char>, data: AttributesModel) -> Seq<char>
    decreases data.len(),
{
    if data.len() == 0 {
        Seq::empty()
    } else {
        let (k, v) = data.last();
        let rest = described_data(service, data.drop_last());
        if k == "cycle"@ {
            rest
        } else if text::ends(service, k) {
            rest + (" "@ + shown(v))
        } else {
            rest + (" "@ + text::swapped(k, '_', ' ') + "="@ + shown(v))
        }
    }
}

/// How a call is described.
pub open spec fn described(c: CallModel) -> Seq<char> {
    text::swapped(c.service, '_', ' ') + described_data(c.service, c.data)
}

pub fn describe(c: &ServiceCall) -> (r: String)
    ensures
        r@ == described(c@),
{
    let mut s = text::replace(c.service.as_str(), '_', ' ');
    let ghost head = s@;
    let ghost data = c.data.deep_view();
    assert(s@ =~= head + Seq::<char>::empty());
    let n: usize = c.data.len();
    for i in 0..n
        invariant
            n == c.data@.len(),
            data == c.data.deep_view(),
            s@ == head + described_data(c.service@, data.take(i as int)),
    {
        assert(data.take(i + 1).drop_last() =~= data.take(i as int));
        assert(data.take(i + 1).last() == data[i as int]);
        let k = c.data.key_at(i);
        let v = c.data.value_at(i);
        let ghost sofar = s@;
        if !same(k, "cycle") {
            let shown_value = match v.as_str() {
                Some(t) => t.to_owned(),
                None => v.to_text(),
            };
            if text::ends_with(c.service.as_str(), k) {
                // set_value(value=45) reads better as "set value 45".
                let part = text::cat2(" ", shown_value.as_str());
                s.append(part.as_str());
            } else {
                let key = text::replace(k, '_', ' ');
                let lead = text::cat3(" ", key.as_str(), "=");
                let part = text::cat2(lead.as_str(), shown_value.as_str());
                s.append(part.as_str());
            }
        }
        assert(s@ =~= head + described_data(c.service@, data.take(i + 1)));
    }
    assert(data.take(n as int) =~= data);
    s
}

// ----- Laws ---------------------------------------------------------------------------

/// Every call acts on the entity it was asked for: it is one of the entity's own domain or, for the
/// primary action alone, the general toggle.
pub proof fn law_calls_act_on_the_entity(e: EntityModel, action: Action)
    ensures
        match service(e, action) {
            Some(c) => {
                &&& c.entity_id == Some(e.entity_id)
                &&& c.domain == super::types::domain(e.entity_id) || (action == Action::Primary && c.domain == "homeassistant"@ && c.service
                    == "toggle"@ && c.data.len() == 0)
                &&& c.data.len() <= 1
            },
            None => true,
        },
{
}

/// What only reports is never acted on.
pub proof fn law_reports_are_not_acted_on(e: EntityModel, action: Action)
    requires
        read_only(super::types::domain(e.entity_id)),
    ensures
        service(e, action) is None,
{
    let d = super::types::domain(e.entity_id);
    reveal_domains();
    assert(d[0] == d[0] && d[1] == d[1] && d[2] == d[2]);
}

/// Which characters the domains are made of.
proof fn reveal_domains()
    ensures
        "light"@.len() == 5 && "light"@[0] == 'l',
        "switch"@.len() == 6 && "switch"@[1] == 'w' && "switch"@[0] == 's',
        "input_boolean"@.len() == 13 && "input_boolean"@[0] == 'i',
        "siren"@.len() == 5 && "siren"@[0] == 's',
        "humidifier"@.len() == 10,
        "fan"@.len() == 3 && "fan"@[0] == 'f',
        "climate"@.len() == 7 && "climate"@[0] == 'c',
        "cover"@.len() == 5 && "cover"@[0] == 'c',
        "valve"@.len() == 5 && "valve"@[0] == 'v',
        "media_player"@.len() == 12,
        "lock"@.len() == 4 && "lock"@[0] == 'l',
        "vacuum"@.len() == 6 && "vacuum"@[0] == 'v',
        "scene"@.len() == 5 && "scene"@[0] == 's',
        "script"@.len() == 6 && "script"@[1] == 'c' && "script"@[0] == 's',
        "automation"@.len() == 10,
        "button"@.len() == 6 && "button"@[0] == 'b',
        "input_button"@.len() == 12,
        "input_number"@.len() == 12,
        "number"@.len() == 6 && "number"@[0] == 'n',
        "input_select"@.len() == 12,
        "select"@.len() == 6 && "select"@[2] == 'l' && "select"@[0] == 's',
        "sensor"@.len() == 6 && "sensor"@[0] == 's' && "sensor"@[1] == 'e' && "sensor"@[2] == 'n',
        "binary_sensor"@.len() == 13 && "binary_sensor"@[0] == 'b',
        "sun"@.len() == 3 && "sun"@[0] == 's',
        "weather"@.len() == 7 && "weather"@[0] == 'w',
        "person"@.len() == 6 && "person"@[0] == 'p',
        "device_tracker"@.len() == 14,
        "zone"@.len() == 4 && "zone"@[0] == 'z',
        "update"@.len() == 6 && "update"@[0] == 'u',
        "event"@.len() == 5 && "event"@[0] == 'e',
{
    reveal_strlit("light");
    reveal_strlit("switch");
    reveal_strlit("input_boolean");
    reveal_strlit("siren");
    reveal_strlit("humidifier");
    reveal_strlit("fan");
    reveal_strlit("climate");
    reveal_strlit("cover");
    reveal_strlit("valve");
    reveal_strlit("media_player");
    reveal_strlit("lock");
    reveal_strlit("vacuum");
    reveal_strlit("scene");
    reveal_strlit("script");
    reveal_strlit("automation");
    reveal_strlit("button");
    reveal_strlit("input_button");
    reveal_strlit("input_number");
    reveal_strlit("number");
    reveal_strlit("input_select");
    reveal_strlit("select");
    reveal_strlit("sensor");
    reveal_strlit("binary_sensor");
    reveal_strlit("sun");
    reveal_strlit("weather");
    reveal_strlit("person");
    reveal_strlit("device_tracker");
    reveal_strlit("zone");
    reveal_strlit("update");
    reveal_strlit("event");
}

/// An entity that does not report its features is assumed to have them all.
pub proof fn law_unreported_features_are_assumed(e: EntityModel, flags: u64)
    requires
        e.attr("supported_features"@) is None,
    ensures
        capable(e, flags),
{
}

/// Whatever is done to a lock is confirmed first.
pub proof fn law_locks_are_confirmed(e: EntityModel, action: Action)
    requires
        super::types::domain(e.entity_id) == "lock"@,
    ensures
        risky(e, action),
{
}

/// Whatever is done to a garage door, a gate or a door is confirmed first, except that stopping it is
/// not.
pub proof fn law_doors_are_confirmed(e: EntityModel, action: Action)
    requires
        super::types::domain(e.entity_id) == "cover"@ || super::types::domain(e.entity_id) == "valve"@,
        e.attr_str("device_class"@) == Some("garage"@) || e.attr_str("device_class"@) == Some("gate"@) || e.attr_str("device_class"@) == Some(
            "door"@,
        ),
        service(e, action) is Some,
    ensures
        risky(e, action) <==> action != Action::Stop,
{
    reveal_domains();
    assert("cover"@[0] != "valve"@[0]);
}

/// Cycling through options that are all different visits each in turn and then starts over.
pub proof fn law_cycling_goes_round(options: Seq<Seq<char>>, i: int)
    requires
        options.no_duplicates(),
        0 <= i < options.len(),
    ensures
        following(options, options[i]) == Some(options[if i + 1 < options.len() { i + 1 } else { 0 }]),
{
    lemma_position(options, i);
}

/// Cycling from what is none of the options starts with the first.
pub proof fn law_cycling_starts_over(options: Seq<Seq<char>>, current: Seq<char>)
    requires
        options.len() > 0,
        !options.contains(current),
    ensures
        following(options, current) == Some(options[0]),
{
    lemma_position_none(options, current);
}

proof fn lemma_position<T>(l: Seq<T>, i: int)
    requires
        l.no_duplicates(),
        0 <= i < l.len(),
    ensures
        position(l, l[i]) == i,
    decreases l.len(),
{
    if i > 0 {
        assert(l[0] != l[i]);
        assert(l.drop_first()[i - 1] == l[i]);
        lemma_position(l.drop_first(), i - 1);
    }
}

proof fn lemma_position_none<T>(l: Seq<T>, x: T)
    requires
        !l.contains(x),
    ensures
        position(l, x) == l.len(),
    decreases l.len(),
{
    if l.len() > 0 {
        assert(l[0] != x);
        assert forall|i: int| 0 <= i < l.drop_first().len() implies l.drop_first()[i] != x by {
            assert(l.drop_first()[i] == l[i + 1]);
        }
        lemma_position_none(l.drop_first(), x);
    }
}

/// The hints are those of the actions that apply, in the order of the keys, and no others: there is
/// none exactly where no action applies.
pub proof fn law_hints_are_the_actions_that_apply(e: EntityModel, keys: Seq<(Action, Seq<char>)>)
    ensures
        hints(e, keys) == keys.filter(|k: (Action, Seq<char>)| service(e, k.0) is Some).map_values(
            |k: (Action, Seq<char>)| (k.1, described(service(e, k.0)->0)),
        ),
        hints(e, keys).len() == 0 <==> forall|i: int| 0 <= i < keys.len() ==> service(e, (#[trigger] keys[i]).0) is None,
    decreases keys.len(),
{
    reveal(Seq::filter);
    let p = |k: (Action, Seq<char>)| service(e, k.0) is Some;
    let f = |k: (Action, Seq<char>)| (k.1, described(service(e, k.0)->0));
    if keys.len() > 0 {
        let rest = keys.drop_last();
        law_hints_are_the_actions_that_apply(e, rest);
        assert forall|i: int| 0 <= i < rest.len() implies rest[i] == keys[i] by {}
        if service(e, keys.last().0) is Some {
            assert(rest.filter(p).push(keys.last()).map_values(f) =~= rest.filter(p).map_values(f).push(f(keys.last())));
            assert(service(e, keys[keys.len() - 1].0) is Some);
        } else {
            if hints(e, keys).len() == 0 {
                assert forall|i: int| 0 <= i < keys.len() implies service(e, (#[trigger] keys[i]).0) is None by {
                    if i < rest.len() {
                        assert(service(e, rest[i].0) is None);
                    }
                }
            }
        }
        if forall|i: int| 0 <= i < keys.len() ==> service(e, (#[trigger] keys[i]).0) is None {
            assert forall|i: int| 0 <= i < rest.len() implies service(e, (#[trigger] rest[i]).0) is None by {
                assert(service(e, keys[i].0) is None);
            }
        }
    }
    assert(hints(e, keys) =~= keys.filter(p).map_values(f));
}

/// That options go round in a cycle is not part of a call's description.
pub proof fn law_cycling_is_not_described(service: Seq<char>, v: JsonModel)
    ensures
        described_data(service, seq![("cycle"@, v)]) == Seq::<char>::empty(),
{
    assert(seq![("cycle"@, v)].drop_last() =~= Seq::empty());
    reveal_with_fuel(described_data, 2);
}

} // verus!
