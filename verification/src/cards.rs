//! The activity card (a feed of recent messages), the toggle switch card, and
//! the texts and recorded history of the gauge and chart cards.
use vstd::prelude::*;
use crate::json::{get_bool, get_i64, json_get, Json, JsonNum, JsonNumber, JsonValue};
use crate::panels::{
    binding_bool, binding_str_or, binding_strings, border_for, strings_of, views_of, UiColor,
};
use crate::side_quest::str_binding;
use crate::text::{concat, contains, contains_str, owned, str_eq, to_uppercase, upper_text};
use vstd::string::StringExecFns;

verus! {

/// The border of the activity card by its status: red for `error`, yellow
/// for `warning`, grey for `idle`, green otherwise.
pub open spec fn activity_border(status: Seq<char>) -> UiColor {
    if status == "error"@ {
        UiColor::Red
    } else if status == "warning"@ {
        UiColor::Yellow
    } else if status == "idle"@ {
        UiColor::Gray
    } else {
        UiColor::Green
    }
}

/// The colour of an activity: red for errors and failures, yellow for
/// warnings, cyan for information, white otherwise.
pub open spec fn activity_color(a: Seq<char>) -> UiColor {
    if contains(a, "ERROR"@) || contains(a, "FAIL"@) {
        UiColor::Red
    } else if contains(a, "WARN"@) {
        UiColor::Yellow
    } else if contains(a, "INFO"@) {
        UiColor::Cyan
    } else {
        UiColor::White
    }
}

/// An entry of the activity feed, with its colour.
pub struct ActivityItem {
    pub text: String,
    pub color: UiColor,
}

/// What the activity card shows.
pub struct ActivityView {
    pub status: String,
    pub border_color: UiColor,
    pub items: Vec<ActivityItem>,
    pub title: String,
}

/// The last `n` entries of a list (all of them where there are fewer).
pub open spec fn last_n(s: Seq<Seq<char>>, n: nat) -> Seq<Seq<char>> {
    if s.len() <= n {
        s
    } else {
        s.skip(s.len() - n)
    }
}

/// The activity card, `height` rows high (borders included): the most
/// recent activities that fit, oldest first, each in its colour; titled
/// with the module's name and its status in upper case.
pub fn activity_view(module_name: &str, is_selected: bool, height: u16, bindings: &JsonValue) -> (r:
    ActivityView)
    ensures
        ({
            let b = bindings@;
            let status = str_binding(b, "status"@, "active"@);
            let shown = last_n(
                strings_of(json_get(b, "activity_log"@)),
                if height >= 2 {
                    (height - 2) as nat
                } else {
                    0
                },
            );
            &&& r.status@ == status
            &&& r.border_color == if is_selected {
                UiColor::White
            } else {
                activity_border(status)
            }
            &&& r.items@.len() == shown.len()
            &&& forall|i: int|
                0 <= i < shown.len() ==> (#[trigger] r.items@[i]).text@ == shown[i]
                    && r.items@[i].color == activity_color(shown[i])
            &&& r.title@ == " "@ + module_name@ + " ["@ + upper_text(status) + "] "@
        }),
{
    let activities = binding_strings(bindings, "activity_log");
    let status = binding_str_or(bindings, "status", "active");
    let s = status.as_str();
    let border_color = if is_selected {
        UiColor::White
    } else if str_eq(s, "error") {
        UiColor::Red
    } else if str_eq(s, "warning") {
        UiColor::Yellow
    } else if str_eq(s, "idle") {
        UiColor::Gray
    } else {
        UiColor::Green
    };
    let display_count: usize = if height >= 2 {
        (height - 2) as usize
    } else {
        0
    };
    let start = if activities.len() <= display_count {
        0
    } else {
        activities.len() - display_count
    };
    let ghost all = views_of(activities@);
    let ghost shown = last_n(all, display_count as nat);
    assert(shown =~= all.skip(start as int));
    let mut items: Vec<ActivityItem> = Vec::new();
    let mut i = start;
    while i < activities.len()
        invariant
            start <= i <= activities@.len(),
            all == views_of(activities@),
            shown == all.skip(start as int),
            items@.len() == i - start,
            forall|j: int|
                0 <= j < i - start ==> (#[trigger] items@[j]).text@ == shown[j] && items@[j].color
                    == activity_color(shown[j]),
        decreases activities.len() - i,
    {
        let a = activities[i].as_str();
        let color = if contains_str(a, "ERROR") || contains_str(a, "FAIL") {
            UiColor::Red
        } else if contains_str(a, "WARN") {
            UiColor::Yellow
        } else if contains_str(a, "INFO") {
            UiColor::Cyan
        } else {
            UiColor::White
        };
        items.push(ActivityItem { text: activities[i].clone(), color });
        i = i + 1;
    }
    let mut title = concat(" ", module_name);
    title.append(" [");
    let upper = to_uppercase(s);
    title.append(upper.as_str());
    title.append("] ");
    ActivityView { status, border_color, items, title }
}

/// What the toggle switch card shows.
pub struct ToggleView {
    pub state: bool,
    pub label: String,
    pub description: String,
    pub status_color: UiColor,
    pub status_text: String,
    pub switch_visual: String,
    pub border_color: UiColor,
    pub title: String,
}

/// The labels of a toggle switch, as its bindings give them.
pub struct ToggleConfig {
    pub on_label: String,
    pub off_label: String,
    pub state: bool,
    pub label: String,
}

impl ToggleConfig {
    /// The labels of the two states (`ON`, `OFF`), the state (off where not
    /// given) and the switch's label (`Toggle`).
    pub fn from_bindings(bindings: &JsonValue) -> (r: ToggleConfig)
        ensures
            r.on_label@ == str_binding(bindings@, "toggle_on_label"@, "ON"@),
            r.off_label@ == str_binding(bindings@, "toggle_off_label"@, "OFF"@),
            r.state == (get_bool(bindings@, "state"@) == Some(true)),
            r.label@ == str_binding(bindings@, "label"@, "Toggle"@),
    {
        ToggleConfig {
            on_label: binding_str_or(bindings, "toggle_on_label", "ON"),
            off_label: binding_str_or(bindings, "toggle_off_label", "OFF"),
            state: binding_bool(bindings, "state"),
            label: binding_str_or(bindings, "label", "Toggle"),
        }
    }
}

/// The toggle switch card: on in green, off in red, with the label of the
/// state and a picture of the switch; titled with the module's name.
pub fn toggle_view(module_name: &str, is_selected: bool, bindings: &JsonValue) -> (r: ToggleView)
    ensures
        ({
            let b = bindings@;
            let state = get_bool(b, "state"@) == Some(true);
            &&& r.state == state
            &&& r.label@ == str_binding(b, "label"@, ""@)
            &&& r.description@ == str_binding(b, "description"@, ""@)
            &&& r.status_color == if state {
                UiColor::Green
            } else {
                UiColor::Red
            }
            &&& r.status_text@ == if state {
                str_binding(b, "toggle_on_label"@, "ON"@)
            } else {
                str_binding(b, "toggle_off_label"@, "OFF"@)
            }
            &&& r.switch_visual@ == if state {
                "[ ────── ● ]"@
            } else {
                "[ ● ────── ]"@
            }
            &&& r.border_color == border_for(is_selected, r.status_color)
            &&& r.title@ == " "@ + module_name@ + " "@
        }),
{
    let state = binding_bool(bindings, "state");
    let (status_color, status_text, switch_visual) = if state {
        (UiColor::Green, binding_str_or(bindings, "toggle_on_label", "ON"), owned("[ ────── ● ]"))
    } else {
        (UiColor::Red, binding_str_or(bindings, "toggle_off_label", "OFF"), owned("[ ● ────── ]"))
    };
    let mut title = concat(" ", module_name);
    title.append(" ");
    ToggleView {
        state,
        label: binding_str_or(bindings, "label", ""),
        description: binding_str_or(bindings, "description", ""),
        status_color,
        status_text,
        switch_visual,
        border_color: if is_selected {
            UiColor::White
        } else {
            status_color
        },
        title,
    }
}

/// The link mark of a connected device, and the broken chain of one that is
/// not connected.
pub open spec fn connected_icon(connected: bool) -> Seq<char> {
    if connected {
        "🔗"@
    } else {
        "⛓️‍💥"@
    }
}

fn connected_icon_exec(connected: bool) -> (r: String)
    ensures
        r@ == connected_icon(connected),
{
    if connected {
        owned("🔗")
    } else {
        owned("⛓️‍💥")
    }
}

/// What the gauge card shows in text: its value, range and thresholds are
/// floating-point numbers and are read and drawn by the caller.
pub struct GaugeLabels {
    pub unit_label: String,
    pub display_name: String,
    pub cmd_status: String,
    pub device_mode: String,
    pub is_connected: bool,
    pub connected_icon: String,
    pub border_color: UiColor,
}

/// The texts of the gauge card: the unit label (none by default), the
/// display name (the module's name by default), the command window status
/// (`⚪ Unknown`), the device mode (`unknown`), whether the device is
/// connected (not by default) with its mark, and a cyan border, white when
/// the card is selected.
pub fn gauge_labels(module_name: &str, is_selected: bool, bindings: &JsonValue) -> (r: GaugeLabels)
    ensures
        ({
            let b = bindings@;
            &&& r.unit_label@ == str_binding(b, "unit_of_measure_label"@, ""@)
            &&& r.display_name@ == str_binding(b, "display_name"@, module_name@)
            &&& r.cmd_status@ == str_binding(b, "cmd_window_status"@, "⚪ Unknown"@)
            &&& r.device_mode@ == str_binding(b, "device_mode"@, "unknown"@)
            &&& r.is_connected == (get_bool(b, "is_connected"@) == Some(true))
            &&& r.connected_icon@ == connected_icon(r.is_connected)
            &&& r.border_color == border_for(is_selected, UiColor::Cyan)
        }),
{
    let is_connected = binding_bool(bindings, "is_connected");
    GaugeLabels {
        unit_label: binding_str_or(bindings, "unit_of_measure_label", ""),
        display_name: binding_str_or(bindings, "display_name", module_name),
        cmd_status: binding_str_or(bindings, "cmd_window_status", "⚪ Unknown"),
        device_mode: binding_str_or(bindings, "device_mode", "unknown"),
        is_connected,
        connected_icon: connected_icon_exec(is_connected),
        border_color: if is_selected {
            UiColor::White
        } else {
            UiColor::Cyan
        },
    }
}

/// What the chart card shows in text: its plotted values are
/// floating-point numbers and are read and drawn by the caller.
pub struct ChartLabels {
    pub chart_type: String,
    pub c: i64,
    pub is_connected: bool,
    pub connected_icon: String,
    pub status_suffix: String,
    pub unit: String,
    pub border_color: UiColor,
    pub title: String,
}

/// The border of the chart card: red while the device is not connected,
/// otherwise green, white when the card is selected.
pub open spec fn chart_border(connected: bool, is_selected: bool) -> UiColor {
    if !connected {
        UiColor::Red
    } else {
        border_for(is_selected, UiColor::Green)
    }
}

/// The texts of the chart card: the chart type (`line` by default), the
/// integer reading `c` (0), whether the device is connected (so by
/// default) with its mark, the status suffix (none), the unit (`units`),
/// the border, and the module's name as title.
pub fn chart_labels(module_name: &str, is_selected: bool, bindings: &JsonValue) -> (r: ChartLabels)
    ensures
        ({
            let b = bindings@;
            &&& r.chart_type@ == str_binding(b, "chart_type"@, "line"@)
            &&& r.c == match get_i64(b, "c"@) {
                Some(c) => c,
                None => 0,
            }
            &&& r.is_connected == (get_bool(b, "is_connected"@) != Some(false))
            &&& r.connected_icon@ == connected_icon(r.is_connected)
            &&& r.status_suffix@ == str_binding(b, "status_suffix"@, ""@)
            &&& r.unit@ == str_binding(b, "unit_of_measure_label"@, "units"@)
            &&& r.border_color == chart_border(r.is_connected, is_selected)
            &&& r.title@ == module_name@
        }),
{
    let c = match bindings.get("c") {
        Some(v) => match v.as_i64() {
            Some(c) => c,
            None => 0,
        },
        None => 0,
    };
    let is_connected = match bindings.get("is_connected") {
        Some(v) => match v.as_bool() {
            Some(x) => x,
            None => true,
        },
        None => true,
    };
    ChartLabels {
        chart_type: binding_str_or(bindings, "chart_type", "line"),
        c,
        is_connected,
        connected_icon: connected_icon_exec(is_connected),
        status_suffix: binding_str_or(bindings, "status_suffix", ""),
        unit: binding_str_or(bindings, "unit_of_measure_label", "units"),
        border_color: if !is_connected {
            UiColor::Red
        } else if is_selected {
            UiColor::White
        } else {
            UiColor::Green
        },
        title: owned(module_name),
    }
}

/// The number member `key` of a document.
pub open spec fn num_member(v: Json, key: Seq<char>) -> Option<JsonNum> {
    match json_get(v, key) {
        Some(Json::Num(n)) => Some(n),
        _ => None,
    }
}

/// One recorded point of a chart: numbers `a` and `b` and an integer `c`.
pub open spec fn history_point(v: Json) -> Option<(JsonNum, JsonNum, i64)> {
    match (num_member(v, "a"@), num_member(v, "b"@), get_i64(v, "c"@)) {
        (Some(a), Some(b), Some(c)) => Some((a, b, c)),
        _ => None,
    }
}

/// The points among the entries of a chart's history, in order; entries
/// that are not points are skipped.
pub open spec fn history_points(items: Seq<Json>) -> Seq<(JsonNum, JsonNum, i64)>
    decreases items.len(),
{
    if items.len() == 0 {
        Seq::empty()
    } else {
        let rest = history_points(items.drop_last());
        match history_point(items.last()) {
            Some(p) => rest.push(p),
            None => rest,
        }
    }
}

/// The history a chart's handler recorded in its bindings, under
/// `_chart_history`; none where that is not a list.
pub open spec fn chart_history_of(b: Json) -> Seq<(JsonNum, JsonNum, i64)> {
    match json_get(b, "_chart_history"@) {
        Some(Json::Arr(items)) => history_points(items),
        _ => Seq::empty(),
    }
}

/// A recorded point of a chart.
pub struct ChartPoint {
    pub a: JsonNumber,
    pub b: JsonNumber,
    pub c: i64,
}

pub open spec fn point_views(v: Seq<ChartPoint>) -> Seq<(JsonNum, JsonNum, i64)> {
    v.map_values(|p: ChartPoint| (p.a@, p.b@, p.c))
}

fn number_member(v: &JsonValue, key: &str) -> (r: Option<JsonNumber>)
    ensures
        r is None <==> num_member(v@, key@) is None,
        r matches Some(n) ==> num_member(v@, key@) == Some(n@),
{
    match v.get(key) {
        Some(JsonValue::Number(n)) => Some(n.copy()),
        _ => None,
    }
}

/// The history recorded in a chart's bindings.
pub fn chart_history(bindings: &JsonValue) -> (r: Vec<ChartPoint>)
    ensures
        point_views(r@) == chart_history_of(bindings@),
{
    let mut r: Vec<ChartPoint> = Vec::new();
    match bindings.get("_chart_history") {
        Some(JsonValue::Array(items)) => {
            proof {
                crate::json::lemma_items_model(items@, items@.len());
            }
            let ghost model = crate::json::items_model(items@, items@.len());
            let mut i: usize = 0;
            while i < items.len()
                invariant
                    i <= items@.len(),
                    model == crate::json::items_model(items@, items@.len()),
                    model.len() == items@.len(),
                    forall|j: int| 0 <= j < items@.len() ==> #[trigger] model[j] == items@[j]@,
                    point_views(r@) == history_points(model.take(i as int)),
                decreases items.len() - i,
            {
                let ghost before = r@;
                proof {
                    let t = model.take(i + 1);
                    assert(t.drop_last() =~= model.take(i as int));
                    assert(t.last() == items@[i as int]@);
                }
                let item = &items[i];
                let a = number_member(item, "a");
                let b = number_member(item, "b");
                let c = match item.get("c") {
                    Some(v) => v.as_i64(),
                    None => None,
                };
                match (a, b, c) {
                    (Some(a), Some(b), Some(c)) => {
                        let ghost p = (a@, b@, c);
                        r.push(ChartPoint { a, b, c });
                        assert(point_views(r@) =~= point_views(before).push(p));
                    },
                    _ => {},
                }
                i = i + 1;
            }
            assert(model.take(i as int) =~= model);
        },
        _ => {},
    }
    r
}

} // verus!
