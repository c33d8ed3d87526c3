//! What a reader finds on the screen, and where.

use super::theme::{Color, PieceModel, SpanModel};
use crate::app::{AppModel, ClockModel, HistoryModel, ItemModel, Tab};
use crate::ha::client::StatusModel;
use crate::ha::types::{EntityModel, LogModel, PointModel};
use crate::json::JsonModel;
use crate::store::{GroupModel, StoreModel};
use crate::text;
use crate::time::TimeModel;
use vstd::prelude::*;

verus! {

/// Whether the span is a plain text.
pub open spec fn reads(s: SpanModel, t: Seq<char>) -> bool {
    s.pieces.len() == 1 && s.pieces[0] == PieceModel::Text(t)
}

// ----- Tables of entities ------------------------------------------------------------------------

/// A row of a table has a cell under each heading, as wide as that; what stands under a heading is what it
/// says: the name, the state in words, the area and how long ago it changed, and for scenes and automations
/// what they are and when they last ran.
pub proof fn law_rows_are_under_their_headings(s: StoreModel, tab: Tab, shared: bool, e: EntityModel, now: TimeModel, area: u16)
    ensures
        ({
            let row = super::entities::row_of(s, tab, shared, e, now);
            let head = super::entities::header_of(tab);
            let area_name = match s.area_of(e.entity_id) {
                Some(a) => a.name,
                None => "Unassigned"@,
            };
            &&& row.len() == head.len() && super::entities::widths_of(tab, area).len() == head.len()
            &&& head[1] == "Name"@ && reads(row[1][0], e.name())
            &&& shared ==> row[1].len() == 2 && reads(row[1][1], " · "@ + crate::ha::types::domain(e.entity_id))
            &&& !shared ==> row[1].len() == 1
            &&& row[0].len() == 1 && reads(row[0][0], "●"@) && row[0][0].style.fg == Some(super::theme::color_of(e.state))
            &&& tab == Tab::Entities || tab == Tab::Logbook ==> {
                &&& head.len() == 5 && head[2] == "State"@ && head[3] == "Area"@ && head[4] == "Changed"@
                &&& row[2].len() == 1 && row[2][0].pieces == super::theme::summary(e, now)
                &&& row[3].len() == 1 && reads(row[3][0], area_name)
                &&& row[4].len() == 1 && reads(
                    row[4][0],
                    match e.last_changed {
                        Some(t) => super::theme::age_of(t, now),
                        None => Seq::empty(),
                    },
                )
            }
            &&& tab == Tab::Scenes ==> {
                &&& head.len() == 4 && head[2] == "Type"@ && head[3] == "Last run / state"@
                &&& reads(row[2][0], crate::ha::types::domain(e.entity_id))
                &&& row[3][0].pieces == super::theme::summary(e, now)
            }
            &&& tab == Tab::Automations ==> {
                &&& head.len() == 5 && head[2] == "Enabled"@ && head[3] == "Last triggered"@ && head[4] == "Mode"@
                &&& reads(row[2][0], e.state)
                &&& reads(row[3][0], super::theme::last_trigger(e, now))
                &&& e.attr_str("mode"@) matches Some(m) ==> reads(row[4][0], m)
            }
        }),
{
}

/// There is a row for each entity that is listed, in that order; one whose name another has too tells its
/// domain.
pub proof fn law_rows_are_those_listed(s: StoreModel, tab: Tab, l: Seq<EntityModel>, now: TimeModel, i: int)
    requires
        0 <= i < l.len(),
    ensures
        super::entities::rows_of(s, tab, l, now, l.len()).len() == l.len(),
        reads(super::entities::rows_of(s, tab, l, now, l.len())[i][1][0], l[i].name()),
        (exists|j: int| 0 <= j < l.len() && j != i && (#[trigger] l[j]).name() == l[i].name()) ==> super::entities::rows_of(s, tab, l, now, l.len())[i][1].len()
            == 2,
{
    let names = super::entities::names(l);
    if exists|j: int| 0 <= j < l.len() && j != i && (#[trigger] l[j]).name() == l[i].name() {
        let j = choose|j: int| 0 <= j < l.len() && j != i && (#[trigger] l[j]).name() == l[i].name();
        assert(names[i] == l[i].name() && names[j] == l[i].name());
        if i < j {
            lemma_two(names, l[i].name(), i, j);
        } else {
            lemma_two(names, l[i].name(), j, i);
        }
    }
}

proof fn lemma_two(l: Seq<Seq<char>>, x: Seq<char>, i: int, j: int)
    requires
        0 <= i < j < l.len(),
        l[i] == x && l[j] == x,
    ensures
        crate::strmap::occurrences(l, x) > 1,
    decreases l.len(),
{
    if j == l.len() - 1 {
        lemma_one(l.drop_last(), x, i);
    } else {
        lemma_two(l.drop_last(), x, i, j);
    }
}

proof fn lemma_one(l: Seq<Seq<char>>, x: Seq<char>, i: int)
    requires
        0 <= i < l.len(),
        l[i] == x,
    ensures
        crate::strmap::occurrences(l, x) > 0,
    decreases l.len(),
{
    if i < l.len() - 1 {
        lemma_one(l.drop_last(), x, i);
    } else {
        lemma_none_fewer(l.drop_last(), x);
    }
}

proof fn lemma_none_fewer(l: Seq<Seq<char>>, x: Seq<char>)
    ensures
        crate::strmap::occurrences(l, x) >= 0,
    decreases l.len(),
{
    if l.len() > 0 {
        lemma_none_fewer(l.drop_last(), x);
    }
}

/// The table is titled with the group that is selected, with that it shows what a search found, or with the
/// tab.
pub proof fn law_tables_are_titled(m: AppModel)
    ensures
        m.tab == Tab::Entities && m.filter.len() > 0 ==> super::entities::table_subject(m) == "Search results"@,
        m.tab == Tab::Scenes ==> super::entities::table_subject(m) == "Scenes & Scripts"@,
        m.tab == Tab::Automations ==> super::entities::table_subject(m) == "Automations"@,
        m.tab == Tab::Entities && m.filter.len() == 0 && m.group_state == Some(0usize) ==> super::entities::table_subject(m) == "All"@,
{
    crate::store::law_groups_part_the_entities(m.store, m.group_by);
}

/// A group's line shows its title and its count.
pub proof fn law_groups_show_their_count(g: GroupModel, width: u16)
    requires
        g.count >= 0,
        g.title.len() + 8 <= width,
        text::decimal(g.count as nat).len() <= 4,
    ensures
        ({
            let line = super::entities::group_text(g, width);
            &&& line.len() == 3
            &&& reads(line[0], g.title)
            &&& line[2].pieces.len() == 1 && line[2].pieces[0] is Text
            &&& text::ends(line[2].pieces[0]->Text_0, text::decimal(g.count as nat))
        }),
{
    text::law_padding(text::decimal(g.count as nat), 4);
}

// ----- States in words ---------------------------------------------------------------------------

/// A state in words. What is unavailable or unknown says so. A light and a fan that are on tell how much, an
/// open cover how far; a thermostat tells its target and its reading; a player what it plays; a scene and a
/// button when they last ran; and anything else its state with its unit.
pub proof fn law_states_in_words(e: EntityModel, now: TimeModel)
    ensures
        ({
            let w = super::theme::summary(e, now);
            let d = crate::ha::types::domain(e.entity_id);
            let says = |t: Seq<char>| w == seq![PieceModel::Text(t)];
            let away = e.state == "unavailable"@ || e.state == "unknown"@;
            &&& away ==> says(e.state)
            &&& !away && d == "light"@ && e.state == "on"@ && e.attr_number("brightness"@) is Some ==> w == seq![
                PieceModel::Text("on "@),
                PieceModel::Brightness(e.attr_number("brightness"@)->0),
                PieceModel::Text("%"@),
            ]
            &&& !away && d == "fan"@ && e.state == "on"@ && e.attr_number("percentage"@) is Some ==> w == seq![
                PieceModel::Text("on "@),
                PieceModel::Rounded(e.attr_number("percentage"@)->0),
                PieceModel::Text("%"@),
            ]
            &&& !away && d == "cover"@ && e.state == "open"@ && e.attr_number("current_position"@) is Some ==> w == seq![
                PieceModel::Text("open "@),
                PieceModel::Rounded(e.attr_number("current_position"@)->0),
                PieceModel::Text("%"@),
            ]
            &&& !away && d == "cover"@ && e.state != "open"@ ==> says(e.state)
            &&& !away && d == "climate"@ ==> w.len() >= 1 && w[0] == PieceModel::Text(e.state)
            &&& !away && d == "climate"@ && e.attr_number("temperature"@) is Some ==> w.len() >= 4 && w[1] == PieceModel::Text(" → "@) && w[2]
                == PieceModel::Trimmed(e.attr_number("temperature"@)->0)
            &&& !away && d == "climate"@ && e.attr_number("current_temperature"@) is Some ==> w.len() >= 4 && w[w.len() - 3] == PieceModel::Text(" ("@)
                && w[w.len() - 2] == PieceModel::Trimmed(e.attr_number("current_temperature"@)->0)
            &&& !away && d == "media_player"@ && (e.state == "playing"@ || e.state == "paused"@) && e.attr_str("media_title"@) is Some ==> says(
                e.state + " · "@ + e.attr_str("media_title"@)->0,
            )
            &&& !away && (d == "scene"@ || d == "button"@ || d == "input_button"@) && crate::time::rfc3339_point(e.state) is Some ==> says(
                super::theme::age_of(crate::time::rfc3339_point(e.state)->0, now) + " ago"@,
            )
            &&& !away && d == "sensor"@ && e.attr_str("device_class"@) != Some("timestamp"@) && e.attr_str("unit_of_measurement"@) is Some ==> says(
                e.state + " "@ + e.attr_str("unit_of_measurement"@)->0,
            )
            &&& !away && d == "sensor"@ && e.attr_str("device_class"@) != Some("timestamp"@) && e.attr_str("unit_of_measurement"@) is None ==> says(
                e.state,
            )
            &&& !away && (d == "light"@ || d == "fan"@) && e.state == "on"@ && e.attr_number("brightness"@) is None && e.attr_number("percentage"@)
                is None ==> says("on"@)
            &&& !away && d == "media_player"@ && (e.state == "playing"@ || e.state == "paused"@) && e.attr_str("media_title"@) is None ==> says(e.state)
            &&& !away && d == "sensor"@ && e.attr_str("device_class"@) == Some("timestamp"@) ==> match crate::time::rfc3339_point(e.state) {
                Some(t) => w.len() == 1 && w[0] is Clock && w[0]->at == t,
                None => says(e.state),
            }
            &&& !away && d != "light"@ && d != "fan"@ && d != "cover"@ && d != "climate"@ && d != "media_player"@ && d != "scene"@ && d != "button"@ && d
                != "input_button"@ && d != "sensor"@ ==> says(
                match e.attr_str("unit_of_measurement"@) {
                    Some(u) => e.state + " "@ + u,
                    None => e.state,
                },
            )
            &&& !away && (d == "light"@ || d == "fan"@) && e.state != "on"@ && e.attr_str("unit_of_measurement"@) is None ==> says(e.state)
        }),
{
    reveal_kinds();
}

proof fn reveal_kinds()
    ensures
        "light"@.len() == 5 && "light"@[0] == 'l',
        "fan"@.len() == 3,
        "cover"@.len() == 5 && "cover"@[0] == 'c',
        "climate"@.len() == 7,
        "media_player"@.len() == 12 && "media_player"@[0] == 'm',
        "scene"@.len() == 5 && "scene"@[0] == 's',
        "button"@.len() == 6 && "button"@[0] == 'b',
        "input_button"@.len() == 12 && "input_button"@[0] == 'i',
        "sensor"@.len() == 6 && "sensor"@[0] == 's' && "sensor"@[1] == 'e',
        "switch"@.len() == 6 && "switch"@[0] == 's' && "switch"@[1] == 'w',
        "binary_sensor"@.len() == 13,
        "lock"@.len() == 4,
        "unavailable"@.len() == 11,
        "unknown"@.len() == 7,
        "on"@.len() == 2,
        "open"@.len() == 4,
{
    reveal_strlit("light");
    reveal_strlit("fan");
    reveal_strlit("cover");
    reveal_strlit("climate");
    reveal_strlit("media_player");
    reveal_strlit("scene");
    reveal_strlit("button");
    reveal_strlit("input_button");
    reveal_strlit("sensor");
    reveal_strlit("switch");
    reveal_strlit("binary_sensor");
    reveal_strlit("lock");
    reveal_strlit("unavailable");
    reveal_strlit("unknown");
    reveal_strlit("on");
    reveal_strlit("open");
}

/// An age is in the largest unit that it has one of, rounded down: seconds, minutes, hours or days. What is
/// yet to come has none.
pub proof fn law_ages(secs: int)
    ensures
        secs < 0 ==> super::theme::age(secs) == text::decimal(0) + "s"@,
        0 <= secs < 60 ==> super::theme::age(secs) == text::decimal(secs as nat) + "s"@,
        60 <= secs < 3_600 ==> super::theme::age(secs) == text::decimal((secs / 60) as nat) + "m"@,
        3_600 <= secs < 86_400 ==> super::theme::age(secs) == text::decimal((secs / 3_600) as nat) + "h"@,
        86_400 <= secs ==> super::theme::age(secs) == text::decimal((secs / 86_400) as nat) + "d"@,
        0 <= secs < 60 ==> super::history::lasted(secs) == text::decimal(secs as nat) + "s"@,
        60 <= secs < 3_600 ==> super::history::lasted(secs) == text::decimal((secs / 60) as nat) + "m"@,
        3_600 <= secs ==> super::history::lasted(secs) == text::decimal((secs / 3_600) as nat) + "h "@ + text::decimal((secs % 3_600 / 60) as nat)
            + "m"@,
{
}

/// When an automation last ran: how long ago, or never.
pub proof fn law_last_triggers(e: EntityModel, now: TimeModel)
    ensures
        ({
            let when = match e.attr_str("last_triggered"@) {
                Some(t) => crate::time::rfc3339_point(t),
                None => None,
            };
            super::theme::last_trigger(e, now) == match when {
                Some(t) => super::theme::age_of(t, now) + " ago"@,
                None => "never"@,
            }
        }),
{
}

/// What the states with a color are made of.
proof fn reveal_states()
    ensures
        "on"@.len() == 2 && "on"@[0] == 'o' && "on"@[1] == 'n',
        "open"@.len() == 4 && "open"@[0] == 'o' && "open"@[1] == 'p' && "open"@[2] == 'e',
        "opening"@.len() == 7 && "opening"@[0] == 'o' && "opening"@[1] == 'p' && "opening"@[2] == 'e',
        "playing"@.len() == 7 && "playing"@[0] == 'p' && "playing"@[1] == 'l' && "playing"@[2] == 'a',
        "home"@.len() == 4 && "home"@[0] == 'h' && "home"@[1] == 'o' && "home"@[2] == 'm',
        "cleaning"@.len() == 8 && "cleaning"@[0] == 'c' && "cleaning"@[1] == 'l' && "cleaning"@[2] == 'e',
        "heat"@.len() == 4 && "heat"@[0] == 'h' && "heat"@[1] == 'e' && "heat"@[2] == 'a',
        "cool"@.len() == 4 && "cool"@[0] == 'c' && "cool"@[1] == 'o' && "cool"@[2] == 'o',
        "heat_cool"@.len() == 9 && "heat_cool"@[0] == 'h' && "heat_cool"@[1] == 'e' && "heat_cool"@[2] == 'a',
        "auto"@.len() == 4 && "auto"@[0] == 'a' && "auto"@[1] == 'u' && "auto"@[2] == 't',
        "dry"@.len() == 3 && "dry"@[0] == 'd' && "dry"@[1] == 'r' && "dry"@[2] == 'y',
        "fan_only"@.len() == 8 && "fan_only"@[0] == 'f' && "fan_only"@[1] == 'a' && "fan_only"@[2] == 'n',
        "active"@.len() == 6 && "active"@[0] == 'a' && "active"@[1] == 'c' && "active"@[2] == 't',
        "above_horizon"@.len() == 13 && "above_horizon"@[0] == 'a' && "above_horizon"@[1] == 'b' && "above_horizon"@[2] == 'o',
        "locked"@.len() == 6 && "locked"@[0] == 'l' && "locked"@[1] == 'o' && "locked"@[2] == 'c',
        "unlocked"@.len() == 8 && "unlocked"@[0] == 'u' && "unlocked"@[1] == 'n' && "unlocked"@[2] == 'l',
        "jammed"@.len() == 6 && "jammed"@[0] == 'j' && "jammed"@[1] == 'a' && "jammed"@[2] == 'm',
        "problem"@.len() == 7 && "problem"@[0] == 'p' && "problem"@[1] == 'r' && "problem"@[2] == 'o',
        "triggered"@.len() == 9 && "triggered"@[0] == 't' && "triggered"@[1] == 'r' && "triggered"@[2] == 'i',
        "off"@.len() == 3 && "off"@[0] == 'o' && "off"@[1] == 'f' && "off"@[2] == 'f',
        "closed"@.len() == 6 && "closed"@[0] == 'c' && "closed"@[1] == 'l' && "closed"@[2] == 'o',
        "closing"@.len() == 7 && "closing"@[0] == 'c' && "closing"@[1] == 'l' && "closing"@[2] == 'o',
        "idle"@.len() == 4 && "idle"@[0] == 'i' && "idle"@[1] == 'd' && "idle"@[2] == 'l',
        "paused"@.len() == 6 && "paused"@[0] == 'p' && "paused"@[1] == 'a' && "paused"@[2] == 'u',
        "standby"@.len() == 7 && "standby"@[0] == 's' && "standby"@[1] == 't' && "standby"@[2] == 'a',
        "not_home"@.len() == 8 && "not_home"@[0] == 'n' && "not_home"@[1] == 'o' && "not_home"@[2] == 't',
        "docked"@.len() == 6 && "docked"@[0] == 'd' && "docked"@[1] == 'o' && "docked"@[2] == 'c',
        "below_horizon"@.len() == 13 && "below_horizon"@[0] == 'b' && "below_horizon"@[1] == 'e' && "below_horizon"@[2] == 'l',
        "unavailable"@.len() == 11 && "unavailable"@[0] == 'u' && "unavailable"@[1] == 'n' && "unavailable"@[2] == 'a',
        "unknown"@.len() == 7 && "unknown"@[0] == 'u' && "unknown"@[1] == 'n' && "unknown"@[2] == 'k',
{
    reveal_strlit("on");
    reveal_strlit("open");
    reveal_strlit("opening");
    reveal_strlit("playing");
    reveal_strlit("home");
    reveal_strlit("cleaning");
    reveal_strlit("heat");
    reveal_strlit("cool");
    reveal_strlit("heat_cool");
    reveal_strlit("auto");
    reveal_strlit("dry");
    reveal_strlit("fan_only");
    reveal_strlit("active");
    reveal_strlit("above_horizon");
    reveal_strlit("locked");
    reveal_strlit("unlocked");
    reveal_strlit("jammed");
    reveal_strlit("problem");
    reveal_strlit("triggered");
    reveal_strlit("off");
    reveal_strlit("closed");
    reveal_strlit("closing");
    reveal_strlit("idle");
    reveal_strlit("paused");
    reveal_strlit("standby");
    reveal_strlit("not_home");
    reveal_strlit("docked");
    reveal_strlit("below_horizon");
    reveal_strlit("unavailable");
    reveal_strlit("unknown");
}

/// The colors tell states apart: what is on or under way, what is locked, what calls for attention, what is off
/// or at rest, and what cannot be reached. Any other state is plain. On a timeline what is off is darker, and
/// what is plain gets a color of its own.
pub proof fn law_colors(s: Seq<char>)
    ensures
        super::theme::color_of(s) == Color::Yellow <==> s == "on"@ || s == "open"@ || s == "opening"@ || s == "playing"@ || s == "home"@ || s == "cleaning"@ || s == "heat"@ || s == "cool"@ || s == "heat_cool"@ || s == "auto"@ || s == "dry"@ || s == "fan_only"@ || s == "active"@ || s == "above_horizon"@,
        super::theme::color_of(s) == Color::Green <==> s == "locked"@,
        super::theme::color_of(s) == Color::LightRed <==> s == "unlocked"@ || s == "jammed"@ || s == "problem"@ || s == "triggered"@,
        super::theme::color_of(s) == Color::Gray <==> s == "off"@ || s == "closed"@ || s == "closing"@ || s == "idle"@ || s == "paused"@ || s == "standby"@ || s == "not_home"@ || s == "docked"@ || s == "below_horizon"@,
        super::theme::color_of(s) == Color::Red <==> s == "unavailable"@ || s == "unknown"@,
        super::theme::color_of(s) == Color::Gray ==> super::theme::timeline_color_of(s) == Color::DarkGray,
        super::theme::color_of(s) != Color::Gray && super::theme::color_of(s) != Color::White ==> super::theme::timeline_color_of(s)
            == super::theme::color_of(s),
        super::theme::timeline_color_of(s) != Color::White,
{
    reveal_states();
    assert(s.len() > 2 ==> s[0] == s[0] && s[1] == s[1] && s[2] == s[2]);
}

// ----- Details ------------------------------------------------------------------------------------

/// The details begin with the name and the id, and tell the state in words, the area and when it changed.
pub proof fn law_details_tell_the_entity(s: StoreModel, e: EntityModel, now: TimeModel, width: nat)
    ensures
        ({
            let lines = super::entities::details(s, e, now, width);
            let area_name = match s.area_of(e.entity_id) {
                Some(a) => a.name,
                None => "Unassigned"@,
            };
            &&& lines.len() > 5
            &&& lines[0].len() == 1 && reads(lines[0][0], e.name())
            &&& lines[1].len() == 1 && reads(lines[1][0], e.entity_id)
            &&& lines[3].len() == 2 && reads(lines[3][0], text::left_in("State"@, 9)) && lines[3][1].pieces == super::theme::summary(e, now)
            &&& lines[4].len() == 2 && reads(lines[4][0], text::left_in("Area"@, 9)) && reads(lines[4][1], area_name)
            &&& e.last_changed matches Some(t) ==> lines[5].len() == 3 && reads(lines[5][0], text::left_in("Changed"@, 9)) && reads(
                lines[5][1],
                super::theme::age_of(t, now) + " ago"@,
            )
        }),
{
}

/// The controls list each key that does something, with what it does; where none does, that it is read-only.
pub proof fn law_controls_list_the_keys(e: EntityModel, i: int)
    ensures
        ({
            let hints = crate::ha::actions::hints(e, crate::ha::actions::hint_keys());
            let lines = super::entities::control_lines(e);
            &&& reads(lines[1][0], "Controls"@)
            &&& hints.len() == 0 ==> lines.len() == 4 && reads(lines[2][0], "read-only"@)
            &&& hints.len() > 0 ==> lines.len() == hints.len() + 3
            &&& 0 <= i < hints.len() ==> reads(lines[2 + i][0], " "@ + text::left_in(hints[i].0, 6)) && reads(lines[2 + i][1], hints[i].1)
        }),
{
}

/// Every attribute has a line with its name and value, except the four that are shown otherwise or not at all.
pub proof fn law_attributes_are_listed(a: Seq<(Seq<char>, JsonModel)>, b: Seq<(Seq<char>, JsonModel)>, k: Seq<char>, v: JsonModel, width: nat)
    ensures
        ({
            let lines = super::entities::attr_lines(seq![(k, v)], width);
            let left_out = k == "friendly_name"@ || k == "icon"@ || k == "entity_picture"@ || k == "supported_features"@;
            &&& left_out ==> lines.len() == 0
            &&& !left_out ==> lines.len() == 1 && reads(lines[0][0], k.map_values(|c: char| if c == '_' { ' ' } else { c }) + ": "@)
            &&& !left_out && k.len() + 2 + super::entities::value_text(v).len() <= width ==> reads(lines[0][1], super::entities::value_text(v))
        }),
        super::entities::attr_lines(a + b, width) == super::entities::attr_lines(a, width) + super::entities::attr_lines(b, width),
        v matches JsonModel::Text(t) ==> super::entities::value_text(v) == t,
    decreases b.len(),
{
    reveal_with_fuel(super::entities::attr_lines, 2);
    assert(seq![(k, v)].drop_last() =~= Seq::empty());
    assert(text::swapped(k, '_', ' ') =~= k.map_values(|c: char| if c == '_' { ' ' } else { c }));
    assert(!super::entities::unshown(k) ==> super::entities::attr_lines(seq![(k, v)], width) =~= seq![super::entities::attr_line(k, v, width)]);
    if b.len() > 0 {
        law_attributes_are_listed(a, b.drop_last(), k, v, width);
        assert((a + b).drop_last() =~= a + b.drop_last());
    } else {
        assert(a + b =~= a);
    }
    assert(super::entities::attr_lines(a + b, width) =~= super::entities::attr_lines(a, width) + super::entities::attr_lines(b, width));
}

// ----- Histories ----------------------------------------------------------------------------------

/// While a history has nothing to show it says why: that it could not be loaded, that it is being loaded, or
/// that there is none.
pub proof fn law_histories_say_why(h: HistoryModel)
    ensures
        ({
            let m = super::history::message_for(h);
            &&& h.error matches Some(e) ==> m is Some && reads(m->0, "Could not load history: "@ + e)
            &&& h.error is None && h.points is None ==> m is Some && reads(m->0, "Loading…"@)
            &&& h.error is None && h.points is Some ==> (m is Some <==> h.points->0.len() == 0)
        }),
{
}

/// At a time the state is that of the last point that is not later; before the first there is none.
pub proof fn law_states_hold_until_the_next(points: Seq<PointModel>, t: TimeModel, i: int)
    requires
        0 <= i < points.len(),
        forall|a: int, b: int| 0 <= a < b < points.len() ==> !crate::time::sooner((#[trigger] points[b]).when, (#[trigger] points[a]).when),
    ensures
        !crate::time::sooner(t, points[i].when) && (i + 1 < points.len() ==> crate::time::sooner(t, points[i + 1].when))
            ==> super::history::state_at(points, t) == Some(points[i].state),
        i == 0 && crate::time::sooner(t, points[0].when) ==> super::history::state_at(points, t) is None,
{
    lemma_leads(points, t);
    let n = super::history::leading(points, t);
    if !crate::time::sooner(t, points[i].when) && (i + 1 < points.len() ==> crate::time::sooner(t, points[i + 1].when)) {
        if n <= i {
            assert(n == i || !crate::time::sooner(points[i].when, points[n].when));
        }
    }
}

proof fn lemma_leads(points: Seq<PointModel>, t: TimeModel)
    ensures
        0 <= super::history::leading(points, t) <= points.len(),
        forall|i: int| 0 <= i < super::history::leading(points, t) ==> !crate::time::sooner(t, (#[trigger] points[i]).when),
        super::history::leading(points, t) < points.len() ==> crate::time::sooner(t, points[super::history::leading(points, t)].when),
    decreases points.len(),
{
    if points.len() > 0 && !crate::time::sooner(t, points[0].when) {
        let rest = points.drop_first();
        lemma_leads(rest, t);
        assert forall|i: int| 0 <= i < super::history::leading(points, t) implies !crate::time::sooner(t, (#[trigger] points[i]).when) by {
            if i > 0 {
                assert(rest[i - 1] == points[i]);
            }
        }
    }
}

/// A point's line tells when it was, its state, and how long it lasted: until the next point, and the last one
/// until the end.
pub proof fn law_points_tell_how_long(points: Seq<PointModel>, i: int, end: TimeModel)
    requires
        0 <= i < points.len(),
    ensures
        ({
            let line = super::history::point_line(points, i, end);
            let until = if i + 1 < points.len() { points[i + 1].when } else { end };
            &&& line.len() == 4
            &&& line[0].pieces.len() == 3 && line[0].pieces[1] is Clock && line[0].pieces[1]->at == points[i].when
            &&& reads(line[2], text::left_in(points[i].state, 16))
            &&& reads(line[3], super::history::lasted(crate::time::seconds_from(points[i].when, until)))
            &&& line[1].style.fg == Some(super::theme::timeline_color_of(points[i].state))
        }),
{
}

/// A chart is summed up with the value that holds now, the lowest and the highest.
pub proof fn law_charts_are_summed_up(now: Option<i64>, lo: i64, hi: i64, unit: Seq<char>)
    ensures
        ({
            let line = super::history::summarized(now, lo, hi, unit);
            &&& line.len() == 6
            &&& reads(line[0], " now "@) && reads(line[2], "   min "@) && reads(line[4], "   max "@)
            &&& now matches Some(v) ==> line[1].pieces == seq![PieceModel::Reading(v), PieceModel::Text(unit)]
            &&& now is None ==> reads(line[1], "unavailable"@)
            &&& line[3].pieces == seq![PieceModel::Reading(lo), PieceModel::Text(unit)]
            &&& line[5].pieces == seq![PieceModel::Reading(hi), PieceModel::Text(unit)]
        }),
{
}

/// A chart begins where its window does: a point stands as many seconds from the left as it comes after the
/// start, and what was before stands at the left edge.
pub proof fn law_charts_begin_at_the_start(t: TimeModel, start: TimeModel)
    requires
        0 <= t.nanos < 1_000_000_000 && 0 <= start.nanos < 1_000_000_000,
    ensures
        crate::time::sooner(t, start) ==> super::history::offset(t, start) == 0,
        t.nanos == start.nanos && t.secs >= start.secs ==> super::history::offset(t, start) == t.secs - start.secs,
{
}

// ----- The logbook ---------------------------------------------------------------------------------

/// A row of the logbook tells when, of what and what happened: of what the entry names, and else of the
/// entity, by its name if it is known.
pub proof fn law_log_rows(s: StoreModel, l: LogModel)
    ensures
        ({
            let row = super::logbook::entry_row(s, l);
            &&& row.len() == 3
            &&& row[0][0].pieces.len() == 1 && row[0][0].pieces[0] is Clock && row[0][0].pieces[0]->at == l.when
            &&& l.name matches Some(n) ==> reads(row[1][0], n)
            &&& l.name is None && l.entity_id is Some ==> match s.get(l.entity_id->0) {
                Some(e) => reads(row[1][0], e.name()),
                None => reads(row[1][0], l.entity_id->0),
            }
            &&& l.message matches Some(m) ==> reads(row[2][0], m)
            &&& l.message is None && l.state is Some ==> reads(row[2][0], "changed to "@ + l.state->0)
        }),
{
}

/// The logbook is titled with what it is narrowed to, and with how many entries it has.
pub proof fn law_logbooks_are_titled(m: AppModel)
    ensures
        m.logbook.entity is None ==> super::logbook::scope(m) == "all entities"@,
        m.logbook.entity matches Some(id) ==> super::logbook::scope(m) == match m.store.get(id) {
            Some(e) => e.name(),
            None => id,
        },
        text::begins(super::logbook::logbook_title(m), " Logbook · "@ + super::logbook::scope(m)),
{
    let t = super::logbook::logbook_title(m);
    let b = " Logbook · "@ + super::logbook::scope(m);
    assert(t.take(b.len() as int) =~= b);
}

// ----- The frame -----------------------------------------------------------------------------------

/// The status tells how the connection is: being made, made with which version, lost and when it is tried
/// again, or refused.
pub proof fn law_the_status_is_shown(m: AppModel, now: ClockModel)
    ensures
        ({
            let c = super::connection(m, now);
            &&& m.status is Connecting ==> reads(c, " ● connecting "@) && c.style.fg == Some(super::theme::WARN)
            &&& m.status matches StatusModel::Connected { version } ==> reads(c, " ● HA "@ + version + " "@) && c.style.fg == Some(super::theme::OK)
            &&& m.status matches StatusModel::Disconnected { retry_in, .. } ==> reads(
                c,
                " ● offline, retry in "@ + text::decimal(super::countdown(retry_in, m.status_since, now.ms) as nat) + "s "@,
            ) && c.style.fg == Some(super::theme::ERROR)
            &&& m.status is AuthFailed ==> reads(c, " ● auth failed "@) && c.style.fg == Some(super::theme::ERROR)
        }),
{
}

/// A countdown counts the whole seconds that are left, down to none.
pub proof fn law_countdowns(total: u64, since: u64, now: u64)
    requires
        now >= since,
    ensures
        now - since < total ==> super::countdown(total, since, now) == (total - (now - since)) / 1000,
        now - since >= total ==> super::countdown(total, since, now) == 0,
{
}

/// Until anything is loaded the reader is told what keeps it: that the token was refused, or what keeps Home
/// Assistant from being reached.
pub proof fn law_the_splash_tells_what_keeps_it(m: AppModel, now: ClockModel)
    ensures
        ({
            let lines = super::splash_text(m, now);
            &&& m.status matches StatusModel::AuthFailed(why) ==> reads(lines[0][0], "Authentication failed"@) && reads(lines[1][0], why)
            &&& m.status matches StatusModel::Disconnected { error, .. } ==> reads(lines[0][0], "Cannot reach Home Assistant"@) && reads(
                lines[1][0],
                error,
            )
            &&& m.status is Connecting ==> reads(lines[0][0], "Connecting to Home Assistant…"@)
        }),
{
}

/// A filter that is typed or kept is shown as it is.
pub proof fn law_filters_are_shown(m: AppModel, now: ClockModel)
    ensures
        ({
            let line = super::status_left_text(m, now);
            &&& m.mode is Filter ==> line.len() == 2 && reads(line[1], " /"@ + m.filter + "▏"@ + " "@)
            &&& !(m.mode is Filter) && m.filter.len() > 0 ==> line.len() == 2 && reads(line[1], " /"@ + m.filter + ""@ + " "@)
            &&& !(m.mode is Filter) && m.filter.len() == 0 ==> line.len() == 1
        }),
{
}

/// A toast is shown in place of the hints, in the color of what it is.
pub proof fn law_toasts_are_shown(m: AppModel)
    ensures
        m.toast matches Some(t) ==> reads(super::status_right_text(m), " "@ + t.text + " "@) && super::status_right_text(m).style.fg == Some(
            if t.error { super::theme::ERROR } else { super::theme::OK },
        ),
        m.toast is None ==> reads(super::status_right_text(m), super::hint_text(m)),
{
}

/// The tabs are numbered as their keys.
pub proof fn law_tabs_are_numbered()
    ensures
        super::tab_titles_of().len() == 4,
        super::tab_titles_of()[0] == "1 "@ + "Entities"@,
        super::tab_titles_of()[1] == "2 "@ + "Scenes & Scripts"@,
        super::tab_titles_of()[2] == "3 "@ + "Automations"@,
        super::tab_titles_of()[3] == "4 "@ + "Logbook"@,
{
}

/// A popup asks about what it was opened for, and says that `y` confirms; an item of the palette shows its
/// label and its hint.
pub proof fn law_popups_show_what_they_are_for(label: Seq<char>, i: ItemModel)
    ensures
        reads(super::popups::confirm_text(label)[0][0], label),
        reads(super::popups::confirm_text(label)[1][0], "y"@) && reads(super::popups::confirm_text(label)[1][1], " confirm   "@),
        reads(super::popups::item_line(i)[0], i.label),
        i.hint.len() > 0 ==> super::popups::item_line(i).len() == 2 && reads(super::popups::item_line(i)[1], "  "@ + i.hint),
        i.hint.len() == 0 ==> super::popups::item_line(i).len() == 1,
{
}

/// The help tells the keys of the controls by what they do.
pub proof fn law_help_tells_the_keys()
    ensures
        ({
            let t = super::popups::help_text();
            let tells = |i: int, key: Seq<char>, what: Seq<char>| reads(t[i][0], "  "@ + text::left_in(key, 20)) && reads(t[i][1], what);
            &&& tells(12, "Enter / Space"@, "toggle · run · press"@)
            &&& tells(13, "+ -"@, "brightness · temperature · volume · position"@)
            &&& tells(14, "[ ]"@, "color temperature · fan speed"@)
            &&& tells(15, "m"@, "cycle HVAC mode · option · source"@)
            &&& tells(16, "o c s"@, "open · close · stop"@)
            &&& tells(17, "x"@, "trigger automation"@)
            &&& tells(18, "n p"@, "next · previous track"@)
            &&& tells(19, "H"@, "history (24h)"@)
            &&& tells(25, "q / Ctrl-c"@, "quit"@)
        }),
{
}

/// What is put in the middle lies within, as far from one side as from the other, and is as large as the share
/// or the least asks for, if there is room.
pub proof fn law_the_middle_is_in_the_middle(area: super::Rect, pct_w: u16, pct_h: u16, min_w: u16, min_h: u16)
    requires
        area.on_screen(),
        pct_w <= 100 && pct_h <= 100,
    ensures
        ({
            let r = super::middle(area, pct_w, pct_h, min_w, min_h);
            let left = r.x - area.x;
            let right = area.x + area.width - (r.x + r.width);
            &&& r.inside(area)
            &&& 0 <= right - left <= 1
            &&& r.width <= area.width && (r.width >= min_w || r.width == area.width)
            &&& r.height <= area.height && (r.height >= min_h || r.height == area.height)
        }),
{
    let w = super::portion(area.width as int, pct_w as int, min_w as int);
    let h = super::portion(area.height as int, pct_h as int, min_h as int);
    assert(area.width * pct_w / 100 <= area.width) by (nonlinear_arith)
        requires
            pct_w <= 100,
    ;
    assert(area.height * pct_h / 100 <= area.height) by (nonlinear_arith)
        requires
            pct_h <= 100,
    ;
    assert(area.width * pct_w / 100 >= 0) by (nonlinear_arith);
    assert(area.height * pct_h / 100 >= 0) by (nonlinear_arith);
}

/// The lines of a history go back in time from its end: the first is of the last point, and each of the point
/// before that of the one above it. There are as many as there are points, or as there is room for.
pub proof fn law_histories_go_back(points: Seq<PointModel>, k: int, end: TimeModel, height: u16)
    requires
        0 <= k < points.len(),
    ensures
        super::history::line_of(points, k, end).len() == 4,
        super::history::line_of(points, k, end)[0].pieces[1] is Clock,
        super::history::line_of(points, k, end)[0].pieces[1]->at == points[points.len() - 1 - k].when,
        reads(super::history::line_of(points, k, end)[2], text::left_in(points[points.len() - 1 - k].state, 16)),
        height >= points.len() ==> super::history::line_count(points.len() as int, height) == points.len(),
        1 <= height < points.len() ==> super::history::line_count(points.len() as int, height) == height,
{
}

/// A cell of a timeline has the color of the state at its time: the cells part the window evenly, from its
/// start.
pub proof fn law_timelines(points: Seq<PointModel>, start: TimeModel, end: TimeModel, width: int, x: int)
    requires
        0 <= x < width,
        start.nanos == end.nanos && 0 <= start.nanos < 1_000_000_000,
        start.secs + 1 < end.secs <= crate::time::LAST_SECOND,
    ensures
        ({
            let at = TimeModel { secs: start.secs + (end.secs - start.secs) * x / width, nanos: start.nanos };
            super::history::cell(points, start, end, width, x) == match super::history::state_at(points, at) {
                Some(s) => Some(super::theme::timeline_color_of(s)),
                None => None,
            }
        }),
{
    let span = end.secs - start.secs;
    let d = span * x / width;
    assert(0 <= d <= span) by (nonlinear_arith)
        requires
            0 <= x < width,
            span >= 0,
            d == span * x / width,
    ;
    assert(super::history::span_of(start, end) == span);
    assert(crate::time::seconds_after(start, d) == TimeModel { secs: start.secs + d, nanos: start.nanos });
}

/// The middle of a day's history is twelve hours from its start.
pub proof fn law_the_middle_of_a_day(start: TimeModel)
    requires
        0 <= start.nanos < 1_000_000_000,
        start.secs + 43_200 <= crate::time::LAST_SECOND,
    ensures
        super::history::halved(start) == (TimeModel { secs: start.secs + 12 * 3600, nanos: start.nanos }),
{
}

/// What the table shows of the ids that are listed: the entities of the store that have them, in that order.
pub proof fn law_listed_entities_are_shown(s: StoreModel, a: Seq<Seq<char>>, b: Seq<Seq<char>>, id: Seq<char>)
    ensures
        super::entities::present(s, seq![id]) == match s.get(id) {
            Some(e) => seq![e],
            None => Seq::empty(),
        },
        super::entities::present(s, a + b) == super::entities::present(s, a) + super::entities::present(s, b),
    decreases b.len(),
{
    reveal_with_fuel(super::entities::present, 2);
    assert(seq![id].drop_last() =~= Seq::empty());
    assert(super::entities::present(s, seq![id]) =~= match s.get(id) {
        Some(e) => seq![e],
        None => Seq::empty(),
    });
    if b.len() > 0 {
        law_listed_entities_are_shown(s, a, b.drop_last(), id);
        assert((a + b).drop_last() =~= a + b.drop_last());
    } else {
        assert(a + b =~= a);
    }
    assert(super::entities::present(s, a + b) =~= super::entities::present(s, a) + super::entities::present(s, b));
}

/// A list among the attributes is shown with its items one behind the other.
pub proof fn law_lists_are_shown(l: Seq<JsonModel>, v: JsonModel)
    ensures
        super::entities::value_text(JsonModel::List(seq![v])) == crate::ha::actions::shown(v),
        l.len() > 0 ==> super::entities::value_text(JsonModel::List(l.push(v))) == super::entities::value_text(JsonModel::List(l)) + ", "@
            + crate::ha::actions::shown(v),
{
    reveal_with_fuel(super::entities::joined, 2);
    assert(l.push(v).drop_last() =~= l);
}

/// The header counts the entities that are there.
pub proof fn law_entities_are_counted(m: AppModel)
    ensures
        super::entity_count(m) == " "@ + text::decimal(m.store.entities.len()) + " entities "@,
{
}

/// A history of numbers is one line through all of them, the last held until the end; the value now is the last.
pub proof fn law_numbers_make_a_line(points: Seq<PointModel>, readings: Seq<super::history::Reading>, end: TimeModel)
    requires
        points.len() == readings.len(),
        points.len() > 0,
        forall|i: int| 0 <= i < readings.len() ==> (#[trigger] readings[i]) is Number,
    ensures
        ({
            let s = super::history::series(points, readings, end);
            &&& s is Some && s->0.runs.len() == 1
            &&& s->0.runs[0].len() == points.len() + 1
            &&& forall|i: int| 0 <= i < points.len() ==> (#[trigger] s->0.runs[0][i]) == (points[i].when, readings[i]->Number_0)
            &&& s->0.runs[0].last() == (end, readings.last()->Number_0)
            &&& s->0.now == Some(readings.last()->Number_0)
        }),
{
    lemma_numbers(points, readings);
}

proof fn lemma_numbers(points: Seq<PointModel>, readings: Seq<super::history::Reading>)
    requires
        points.len() <= readings.len(),
        forall|i: int| 0 <= i < points.len() ==> (#[trigger] readings[i]) is Number,
    ensures
        ({
            let g = super::history::gather(points, readings);
            &&& g is Some && g->0.runs.len() == 0 && g->0.run.len() == points.len()
            &&& points.len() > 0 ==> g->0.any
            &&& forall|i: int| 0 <= i < points.len() ==> (#[trigger] g->0.run[i]) == (points[i].when, readings[i]->Number_0)
        }),
    decreases points.len(),
{
    if points.len() > 0 {
        lemma_numbers(points.drop_last(), readings);
        assert(readings[points.len() - 1] is Number);
    }
}

/// A history with a state that is no number, and not merely missing, is no line. Where a number is missing the
/// line breaks: what came before is held until then, and there is no value now while the last is missing.
pub proof fn law_gaps_break_the_line(points: Seq<PointModel>, readings: Seq<super::history::Reading>, end: TimeModel, p: PointModel)
    requires
        points.len() > 0,
        points.len() + 1 == readings.len(),
        forall|i: int| 0 <= i < points.len() ==> (#[trigger] readings[i]) is Number,
        readings[points.len() as int] is Text,
    ensures
        ({
            let s = super::history::series(points.push(p), readings, end);
            let missing = p.state == "unavailable"@ || p.state == "unknown"@ || p.state.len() == 0;
            &&& !missing ==> s is None
            &&& missing ==> {
                &&& s is Some && s->0.runs.len() == 1 && s->0.now is None
                &&& s->0.runs[0].last() == (p.when, readings[points.len() - 1]->Number_0)
            }
        }),
{
    lemma_numbers(points, readings);
    assert(points.push(p).drop_last() =~= points);
}

/// A tab's title stands where the tab does, behind the number of its key.
pub proof fn law_tabs_stand_in_their_places(tab: Tab)
    ensures
        0 <= super::place_of(tab) < 4,
        super::tab_titles_of()[super::place_of(tab)] == (match tab {
            Tab::Entities => "1 "@,
            Tab::Scenes => "2 "@,
            Tab::Automations => "3 "@,
            Tab::Logbook => "4 "@,
        }) + tab.titled(),
        super::place_of(tab.right()) == if super::place_of(tab) == 3 { 0 } else { super::place_of(tab) + 1 },
{
}

/// The titles tell what is shown and how much of it; where there is nothing, whether it is for the filter.
pub proof fn law_titles_tell_what_is_shown(m: AppModel, n: nat)
    ensures
        super::entities::table_title(m, n) == super::entities::table_subject(m) + " ("@ + text::decimal(n) + ")"@,
        super::entities::nothing_listed(m, n) is None <==> n > 0,
        n == 0 && m.filter.len() > 0 ==> super::entities::nothing_listed(m, n) == Some("No matches"@),
        n == 0 && m.filter.len() == 0 ==> super::entities::nothing_listed(m, n) == Some("Nothing here"@),
        m.filter.len() > 0 ==> super::entities::groups_subject(m) == "Search (all)"@,
        m.filter.len() == 0 && m.group_by is Area ==> super::entities::groups_subject(m) == "Areas"@,
        m.filter.len() == 0 && m.group_by is Domain ==> super::entities::groups_subject(m) == "Domains"@,
{
}

/// The details are those of the selected entity as it is in the store; without one there are none.
pub proof fn law_the_selected_entity_is_detailed(s: StoreModel, id: Seq<char>, now: TimeModel, pane: u16)
    ensures
        super::entities::detailed(s, None, now, pane) is None,
        s.get(id) is None ==> super::entities::detailed(s, Some(id), now, pane) is None,
        s.get(id) matches Some(e) ==> super::entities::detailed(s, Some(id), now, pane) matches Some(lines) && lines.len() > 5 && reads(
            lines[0][0],
            e.name(),
        ) && reads(lines[1][0], e.entity_id),
{
    if let Some(e) = s.get(id) {
        law_details_tell_the_entity(s, e, now, (if pane > 4 { pane - 4 } else { 0 }) as nat);
    }
}

/// The logbook has a row for each entry, in their order, and says why it could not be loaded.
pub proof fn law_logbooks_have_their_entries(m: AppModel, i: int)
    ensures
        super::logbook::entry_rows(m).len() == m.logbook.entries.len(),
        0 <= i < m.logbook.entries.len() ==> super::logbook::entry_rows(m)[i] == super::logbook::entry_row(m.store, m.logbook.entries[i]),
        m.logbook.error matches Some(e) ==> super::logbook::trouble(m) matches Some(s) && reads(s, "Could not load logbook: "@ + e),
        m.logbook.error is None ==> super::logbook::trouble(m) is None,
{
}

/// A history is titled with the name of what it is of.
pub proof fn law_histories_are_titled(h: HistoryModel)
    ensures
        super::history::titled(h) == " History · "@ + h.name + " · last 24h "@,
{
}

/// The hints are those of the tab, and while a filter is typed those of typing it.
pub proof fn law_hints_are_those_of_the_tab(m: AppModel)
    ensures
        m.mode is Filter ==> super::hint_text(m) == "type to filter · ↑↓ move · Enter keep · Esc clear"@ + " "@,
        !(m.mode is Filter) ==> super::hint_text(m) == (match m.tab {
            Tab::Entities => "Enter toggle · +/- adjust · H history · / filter · : palette · g group · ? help"@,
            Tab::Scenes => "Enter run · s stop script · H history · / filter · ? help"@,
            Tab::Automations => "Enter enable/disable · x trigger · H history · / filter · ? help"@,
            Tab::Logbook => "j/k scroll · f filter to entity · r refresh · ? help · q quit"@,
        }) + " "@,
{
}

/// The areas have as much room as the longest of those listed needs, from four cells to eighteen.
pub proof fn law_areas_have_room(s: StoreModel, l: Seq<EntityModel>, i: int)
    requires
        0 <= i < l.len(),
    ensures
        4 <= super::entities::area_width(s, l) <= 18,
        s.area_name(l[i].entity_id).len() <= 18 ==> s.area_name(l[i].entity_id).len() <= super::entities::area_width(s, l),
{
    lemma_longest(s, l, i);
}

proof fn lemma_longest(s: StoreModel, l: Seq<EntityModel>, i: int)
    requires
        0 <= i < l.len(),
    ensures
        s.area_name(l[i].entity_id).len() <= super::entities::longest_area(s, l),
    decreases l.len(),
{
    if i < l.len() - 1 {
        lemma_longest(s, l.drop_last(), i);
    }
}

} // verus!
