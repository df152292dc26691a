//! The overseer (wasteland manager) card: trusting devices, installing,
//! managing and restoring modules.
use vstd::prelude::*;
use crate::json::{get_bool, get_str, get_u64, json_get, Json, JsonValue};
use crate::panels::{
    array_len, binding_array_len, binding_bool, binding_status, binding_str_or, binding_strings,
    binding_u64, border_for, is_marked_list, is_selection, marked_lines, selection_lines,
    status_of, strings_of, u64_or_zero, views_of, ListLine, StatusPanel, UiColor,
};
use crate::serial::opt_view;
use crate::side_quest::str_binding;
use crate::string_utils::StringUtils;
use crate::text::{concat, decimal, owned, push_decimal, starts_with, starts_with_str, str_eq};
use vstd::string::StringExecFns;

verus! {

/// What the manager card shows, as read from its module's bindings.
pub struct ManagerView {
    pub current_view: String,
    pub selected_index: usize,
    pub status_message: Option<String>,
    pub border_color: UiColor,
    pub module_list: Vec<String>,
    pub installed_modules: Vec<String>,
    pub known_devices: Vec<String>,
    pub pending_devices: Vec<String>,
    pub pending_count: usize,
    pub known_count: usize,
    pub registry_count: usize,
    pub installed_count: usize,
    pub archived_count: usize,
    pub is_scanning: bool,
    pub scan_countdown: u8,
    pub has_status: bool,
}

/// What the card shows for bindings `b`, selected or not.
pub open spec fn is_manager_view(v: ManagerView, is_selected: bool, b: Json) -> bool {
    &&& v.current_view@ == str_binding(b, "current_view"@, "Main"@)
    &&& v.selected_index == u64_or_zero(get_u64(b, "selected_index"@)) as usize
    &&& opt_view(v.status_message) == status_of(get_str(b, "status_message"@))
    &&& v.border_color == border_for(is_selected, UiColor::Cyan)
    &&& views_of(v.module_list@) == strings_of(json_get(b, "module_list"@))
    &&& views_of(v.installed_modules@) == strings_of(json_get(b, "installed_modules"@))
    &&& views_of(v.known_devices@) == strings_of(json_get(b, "known_devices"@))
    &&& views_of(v.pending_devices@) == strings_of(json_get(b, "pending_devices"@))
    &&& v.pending_count == array_len(json_get(b, "pending_devices"@))
    &&& v.known_count == array_len(json_get(b, "known_devices"@))
    &&& v.registry_count == array_len(json_get(b, "module_list"@))
    &&& v.installed_count == array_len(json_get(b, "installed_modules"@))
    &&& v.archived_count == array_len(json_get(b, "archived_modules"@))
    &&& v.is_scanning == (get_bool(b, "is_scanning"@) == Some(true))
    &&& v.scan_countdown == u64_or_zero(get_u64(b, "scan_countdown"@)) as u8
    &&& v.has_status == v.status_message is Some
}

/// Reads what the card shows from its module's bindings.
pub fn manager_view(is_selected: bool, bindings: &JsonValue) -> (r: ManagerView)
    ensures
        is_manager_view(r, is_selected, bindings@),
{
    let status_message = binding_status(bindings, "status_message");
    let has_status = status_message.is_some();
    ManagerView {
        current_view: binding_str_or(bindings, "current_view", "Main"),
        selected_index: binding_u64(bindings, "selected_index") as usize,
        status_message,
        border_color: if is_selected {
            UiColor::White
        } else {
            UiColor::Cyan
        },
        module_list: binding_strings(bindings, "module_list"),
        installed_modules: binding_strings(bindings, "installed_modules"),
        known_devices: binding_strings(bindings, "known_devices"),
        pending_devices: binding_strings(bindings, "pending_devices"),
        pending_count: binding_array_len(bindings, "pending_devices"),
        known_count: binding_array_len(bindings, "known_devices"),
        registry_count: binding_array_len(bindings, "module_list"),
        installed_count: binding_array_len(bindings, "installed_modules"),
        archived_count: binding_array_len(bindings, "archived_modules"),
        is_scanning: binding_bool(bindings, "is_scanning"),
        scan_countdown: binding_u64(bindings, "scan_countdown") as u8,
        has_status,
    }
}

/// The screens of the card's detail view.
#[derive(Clone, Copy, Debug, PartialEq, Eq, Structural)]
pub enum ManagerScreen {
    Main,
    PendingTrust,
    AllDevices,
    InstallRegistry,
    ManageModules,
    ArchivedModules,
    EditConfig,
}

/// The screen a view name shows: the main menu for unknown names.
pub open spec fn manager_screen_named(name: Seq<char>) -> ManagerScreen {
    if name == "PendingTrust"@ {
        ManagerScreen::PendingTrust
    } else if name == "AllDevices"@ {
        ManagerScreen::AllDevices
    } else if name == "InstallRegistry"@ {
        ManagerScreen::InstallRegistry
    } else if name == "ManageModules"@ {
        ManagerScreen::ManageModules
    } else if name == "ArchivedModules"@ {
        ManagerScreen::ArchivedModules
    } else if name == "EditConfig"@ {
        ManagerScreen::EditConfig
    } else {
        ManagerScreen::Main
    }
}

pub fn manager_screen(current_view: &str) -> (r: ManagerScreen)
    ensures
        r == manager_screen_named(current_view@),
{
    if str_eq(current_view, "PendingTrust") {
        ManagerScreen::PendingTrust
    } else if str_eq(current_view, "AllDevices") {
        ManagerScreen::AllDevices
    } else if str_eq(current_view, "InstallRegistry") {
        ManagerScreen::InstallRegistry
    } else if str_eq(current_view, "ManageModules") {
        ManagerScreen::ManageModules
    } else if str_eq(current_view, "ArchivedModules") {
        ManagerScreen::ArchivedModules
    } else if str_eq(current_view, "EditConfig") {
        ManagerScreen::EditConfig
    } else {
        ManagerScreen::Main
    }
}

/// `<label> (<count>)`.
pub open spec fn counted(label: Seq<char>, n: usize) -> Seq<char> {
    label + " ("@ + decimal(n as nat) + ")"@
}

fn counted_exec(label: &str, n: usize) -> (r: String)
    ensures
        r@ == counted(label@, n),
{
    let mut s = concat(label, " (");
    push_decimal(&mut s, n as u64);
    s.append(")");
    s
}

/// The entries of the main menu, with the counts of what they lead to.
pub open spec fn main_menu_items(v: ManagerView) -> Seq<Seq<char>> {
    seq![
        counted("⚠️  Trust Pending Devices"@, v.pending_count),
        counted("📡 Manage All Devices"@, v.known_count),
        counted("📦 Install from Registry"@, v.registry_count),
        counted("⚙️  Manage Installed Modules"@, v.installed_count),
        counted("📚 View Archived Modules"@, v.archived_count),
        "← Back"@,
    ]
}

/// The panel below a list that shows the status message only: the scan
/// where one runs, else the message; nothing without a message.
pub open spec fn status_panel_is(p: StatusPanel, v: ManagerView) -> bool {
    match v.status_message {
        None => p is Hidden,
        Some(m) => if v.is_scanning {
            p == StatusPanel::Scanning(v.scan_countdown)
        } else {
            p matches StatusPanel::Message(t) && t@ == m@
        },
    }
}

/// The panel below a list that shows the scan or the status message.
pub open spec fn scan_panel_is(p: StatusPanel, v: ManagerView) -> bool {
    if v.is_scanning {
        p == StatusPanel::Scanning(v.scan_countdown)
    } else {
        match v.status_message {
            None => p is Hidden,
            Some(m) => p matches StatusPanel::Message(t) && t@ == m@,
        }
    }
}

fn status_panel(v: &ManagerView) -> (r: StatusPanel)
    ensures
        status_panel_is(r, *v),
{
    match &v.status_message {
        None => StatusPanel::Hidden,
        Some(m) => if v.is_scanning {
            StatusPanel::Scanning(v.scan_countdown)
        } else {
            StatusPanel::Message(m.clone())
        },
    }
}

fn scan_panel(v: &ManagerView) -> (r: StatusPanel)
    ensures
        scan_panel_is(r, *v),
{
    if v.is_scanning {
        StatusPanel::Scanning(v.scan_countdown)
    } else {
        match &v.status_message {
            None => StatusPanel::Hidden,
            Some(m) => StatusPanel::Message(m.clone()),
        }
    }
}

/// The main menu.
pub struct MainMenuScreen {
    pub lines: Vec<ListLine>,
    pub panel: StatusPanel,
    pub help: String,
}

/// The main menu: its entries with the selected one marked, the panel, and
/// the keys.
pub fn main_menu_screen(v: &ManagerView) -> (r: MainMenuScreen)
    ensures
        is_selection(r.lines@, main_menu_items(*v), v.selected_index),
        status_panel_is(r.panel, *v),
        r.help@ == "[s] Scan  [r] Refresh  [Esc] Back"@,
{
    let items = vec![
        counted_exec("⚠️  Trust Pending Devices", v.pending_count),
        counted_exec("📡 Manage All Devices", v.known_count),
        counted_exec("📦 Install from Registry", v.registry_count),
        counted_exec("⚙️  Manage Installed Modules", v.installed_count),
        counted_exec("📚 View Archived Modules", v.archived_count),
        owned("← Back"),
    ];
    assert(views_of(items@) =~= main_menu_items(*v));
    MainMenuScreen {
        lines: selection_lines(&items, v.selected_index),
        panel: status_panel(v),
        help: owned("[s] Scan  [r] Refresh  [Esc] Back"),
    }
}

/// A list screen: a title, the lines (or a text where there is nothing to
/// list), the panel below, and the keys.
pub struct ListScreen {
    pub title: String,
    pub lines: Vec<ListLine>,
    pub empty_text: Option<String>,
    pub panel: StatusPanel,
    pub help: String,
}

pub open spec fn no_pending_text() -> Seq<char> {
    "No pending devices.\n\nNew devices will appear here when discovered.\n\nThey need to be trusted before registration."@
}

/// The devices waiting to be trusted.
pub fn pending_trust_screen(v: &ManagerView) -> (r: ListScreen)
    ensures
        r.title@ == counted("⚠️  New Devices Discovered"@, v.pending_devices@.len() as usize),
        v.pending_devices@.len() == 0 ==> r.lines@.len() == 0,
        v.pending_devices@.len() == 0 ==> (r.empty_text matches Some(t) && t@ == no_pending_text()),
        v.pending_devices@.len() > 0 ==> r.empty_text is None,
        v.pending_devices@.len() > 0 ==> is_selection(
            r.lines@,
            views_of(v.pending_devices@),
            v.selected_index,
        ),
        scan_panel_is(r.panel, *v),
        r.help@
            == "↑/↓: Select • Enter: Trust & Register • 'i': Ignore • 's': Scan Now • 'v': View All • Esc: Back"@,
{
    let (lines, empty_text) = if v.pending_devices.len() == 0 {
        (
            Vec::new(),
            Some(
                owned(
                    "No pending devices.\n\nNew devices will appear here when discovered.\n\nThey need to be trusted before registration.",
                ),
            ),
        )
    } else {
        (selection_lines(&v.pending_devices, v.selected_index), None)
    };
    ListScreen {
        title: counted_exec("⚠️  New Devices Discovered", v.pending_devices.len()),
        lines,
        empty_text,
        panel: scan_panel(v),
        help: owned(
            "↑/↓: Select • Enter: Trust & Register • 'i': Ignore • 's': Scan Now • 'v': View All • Esc: Back",
        ),
    }
}

/// The colour of a known device's line: green for a trusted device (`✓`),
/// red for an untrusted one (`✗`), grey otherwise; the selected line is
/// green where trusted and grey otherwise.
pub open spec fn device_color(device: Seq<char>, selected: bool) -> UiColor {
    let trusted = starts_with(device, "✓"@);
    let untrusted = starts_with(device, "✗"@);
    if selected {
        if trusted {
            UiColor::Green
        } else {
            UiColor::Gray
        }
    } else if trusted {
        UiColor::Green
    } else if untrusted {
        UiColor::Red
    } else {
        UiColor::Gray
    }
}

/// A line of the device list, with its colour.
pub struct DeviceLine {
    pub line: ListLine,
    pub color: UiColor,
}

pub open spec fn no_devices_text() -> Seq<char> {
    "No devices discovered yet.\n\nDevices will appear here when they're in range.\n\nPress 'r' to refresh scanning."@
}

/// All known devices.
pub struct DevicesScreen {
    pub title: String,
    pub lines: Vec<DeviceLine>,
    pub empty_text: Option<String>,
    pub panel: StatusPanel,
    pub help: String,
}

pub fn all_devices_screen(v: &ManagerView) -> (r: DevicesScreen)
    ensures
        r.title@ == counted("📡 All Known Devices"@, v.known_devices@.len() as usize),
        v.known_devices@.len() == 0 ==> r.lines@.len() == 0,
        v.known_devices@.len() == 0 ==> (r.empty_text matches Some(t) && t@ == no_devices_text()),
        v.known_devices@.len() > 0 ==> r.empty_text is None,
        v.known_devices@.len() > 0 ==> r.lines@.len() == v.known_devices@.len(),
        forall|i: int|
            0 <= i < r.lines@.len() ==> {
                let sel = i == v.selected_index;
                let d = v.known_devices@[i]@;
                &&& (#[trigger] r.lines@[i]).line.selected == sel
                &&& r.lines@[i].line.text@ == crate::panels::marker(sel) + d
                &&& r.lines@[i].color == device_color(d, sel)
            },
        status_panel_is(r.panel, *v),
        r.help@
            == "↑/↓: Navigate • 't': Toggle Trust • 'd': Delete • 's': Scan Now • 'p': Pending • Esc: Back"@,
{
    let mut lines: Vec<DeviceLine> = Vec::new();
    let mut i: usize = 0;
    while i < v.known_devices.len()
        invariant
            i <= v.known_devices@.len(),
            lines@.len() == i,
            forall|j: int|
                0 <= j < i ==> {
                    let sel = j == v.selected_index;
                    let d = v.known_devices@[j]@;
                    &&& (#[trigger] lines@[j]).line.selected == sel
                    &&& lines@[j].line.text@ == crate::panels::marker(sel) + d
                    &&& lines@[j].color == device_color(d, sel)
                },
        decreases v.known_devices.len() - i,
    {
        let d = v.known_devices[i].as_str();
        let sel = i == v.selected_index;
        let trusted = starts_with_str(d, "✓");
        let untrusted = starts_with_str(d, "✗");
        let color = if sel {
            if trusted {
                UiColor::Green
            } else {
                UiColor::Gray
            }
        } else if trusted {
            UiColor::Green
        } else if untrusted {
            UiColor::Red
        } else {
            UiColor::Gray
        };
        let text = if sel {
            concat("▶ ", d)
        } else {
            concat("  ", d)
        };
        lines.push(DeviceLine { line: ListLine { text, selected: sel }, color });
        i = i + 1;
    }
    let empty_text = if v.known_devices.len() == 0 {
        Some(
            owned(
                "No devices discovered yet.\n\nDevices will appear here when they're in range.\n\nPress 'r' to refresh scanning.",
            ),
        )
    } else {
        None
    };
    DevicesScreen {
        title: counted_exec("📡 All Known Devices", v.known_devices.len()),
        lines,
        empty_text,
        panel: status_panel(v),
        help: owned(
            "↑/↓: Navigate • 't': Toggle Trust • 'd': Delete • 's': Scan Now • 'p': Pending • Esc: Back",
        ),
    }
}

/// The modules of the registry, to install one.
pub fn install_registry_screen(v: &ManagerView) -> (r: ListScreen)
    ensures
        r.title@ == counted("📦 Registry Modules"@, v.module_list@.len() as usize),
        is_selection(r.lines@, views_of(v.module_list@), v.selected_index),
        r.empty_text is None,
        r.panel is Hidden,
        r.help@ == "↑/↓: Navigate • Enter: Install • Esc: Back"@,
{
    ListScreen {
        title: counted_exec("📦 Registry Modules", v.module_list.len()),
        lines: selection_lines(&v.module_list, v.selected_index),
        empty_text: None,
        panel: StatusPanel::Hidden,
        help: owned("↑/↓: Navigate • Enter: Install • Esc: Back"),
    }
}

/// The archived modules, to restore one; they are read from the bindings'
/// `archived_modules`.
pub fn archived_modules_screen(v: &ManagerView, bindings: &JsonValue) -> (r: ListScreen)
    ensures
        ({
            let archived = strings_of(json_get(bindings@, "archived_modules"@));
            &&& r.title@ == counted("📚 Archived Modules"@, archived.len() as usize)
            &&& archived.len() == 0 ==> r.lines@.len() == 0
            &&& archived.len() == 0 ==> (r.empty_text matches Some(t) && t@
                == "No archived modules."@)
            &&& archived.len() > 0 ==> r.empty_text is None
            &&& archived.len() > 0 ==> is_marked_list(
                r.lines@,
                archived,
                v.selected_index,
                "↩ "@,
            )
        }),
        r.panel is Hidden,
        r.help@ == "↑/↓: Navigate • Enter: Restore Module • Esc: Back"@,
{
    let archived = binding_strings(bindings, "archived_modules");
    let (lines, empty_text) = if archived.len() == 0 {
        (Vec::new(), Some(owned("No archived modules.")))
    } else {
        (marked_lines(&archived, v.selected_index, "↩ "), None)
    };
    ListScreen {
        title: counted_exec("📚 Archived Modules", archived.len()),
        lines,
        empty_text,
        panel: StatusPanel::Hidden,
        help: owned("↑/↓: Navigate • Enter: Restore Module • Esc: Back"),
    }
}

/// The overview of the card: how many modules are installed and how many
/// devices are known.
pub open spec fn overseer_overview(v: ManagerView) -> Seq<char> {
    "Configure Manifests & Peripherals\n---\n["@ + decimal(v.installed_count as nat) + " "@ + (if v.installed_count == 1 {
        "Module"@
    } else {
        "Modules"@
    }) + "]\n["@ + decimal(v.known_count as nat) + " "@ + (if v.known_count == 1 {
        "Device"@
    } else {
        "Devices"@
    }) + "]"@
}

pub fn overseer_overview_text(v: &ManagerView) -> (r: String)
    ensures
        r@ == overseer_overview(*v),
{
    let mut s = owned("Configure Manifests & Peripherals\n---\n[");
    let m = StringUtils::maybe_pluralize_count(v.installed_count, ("Module", "Modules"));
    s.append(m.as_str());
    s.append("]\n[");
    let d = StringUtils::maybe_pluralize_count(v.known_count, ("Device", "Devices"));
    s.append(d.as_str());
    s.append("]");
    s
}

/// The panel of the card's overview: the scan where one runs, else the
/// status message.
pub fn overview_panel(v: &ManagerView) -> (r: StatusPanel)
    ensures
        scan_panel_is(r, *v),
{
    scan_panel(v)
}

} // verus!
