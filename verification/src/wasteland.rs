//! The wasteland manager card in its single-screen-per-view form: a menu
//! given by the bindings, the devices to trust, and the installed modules.
//! The registry and archive screens are those of the overseer card.
use vstd::prelude::*;
use crate::json::{json_get, JsonValue};
use crate::manager::{counted, ListScreen, ManagerView};
use crate::panels::{
    binding_strings, is_marked_list, is_selection, marked_lines, selection_lines, strings_of,
    views_of, StatusPanel,
};
use crate::text::{owned, push_decimal, str_eq};
use vstd::string::StringExecFns;

verus! {

/// The screens of the card.
#[derive(Clone, Copy, Debug, PartialEq, Eq, Structural)]
pub enum WastelandScreen {
    Main,
    TrustDevices,
    InstallRegistry,
    ManageModules,
    ArchivedModules,
}

/// The screen a view name shows: the main menu for unknown names.
pub open spec fn wasteland_screen_named(name: Seq<char>) -> WastelandScreen {
    if name == "TrustDevices"@ {
        WastelandScreen::TrustDevices
    } else if name == "InstallRegistry"@ {
        WastelandScreen::InstallRegistry
    } else if name == "ManageModules"@ {
        WastelandScreen::ManageModules
    } else if name == "ArchivedModules"@ {
        WastelandScreen::ArchivedModules
    } else {
        WastelandScreen::Main
    }
}

pub fn wasteland_screen(current_view: &str) -> (r: WastelandScreen)
    ensures
        r == wasteland_screen_named(current_view@),
{
    if str_eq(current_view, "TrustDevices") {
        WastelandScreen::TrustDevices
    } else if str_eq(current_view, "InstallRegistry") {
        WastelandScreen::InstallRegistry
    } else if str_eq(current_view, "ManageModules") {
        WastelandScreen::ManageModules
    } else if str_eq(current_view, "ArchivedModules") {
        WastelandScreen::ArchivedModules
    } else {
        WastelandScreen::Main
    }
}

fn counted_text(label: &str, n: usize) -> (r: String)
    ensures
        r@ == counted(label@, n),
{
    let mut s = owned(label);
    s.append(" (");
    push_decimal(&mut s, n as u64);
    s.append(")");
    s
}

fn message_panel(v: &ManagerView) -> (r: StatusPanel)
    ensures
        match v.status_message {
            Some(m) => r matches StatusPanel::Message(t) && t@ == m@,
            None => r is Hidden,
        },
{
    match &v.status_message {
        Some(m) => StatusPanel::Message(m.clone()),
        None => StatusPanel::Hidden,
    }
}

/// The main menu: titled `⚙️  Wasteland Manager`, the entries of the
/// bindings' `menu_items` with the selected one marked, the status message.
pub fn wasteland_main_menu(v: &ManagerView, bindings: &JsonValue) -> (r: ListScreen)
    ensures
        r.title@ == "⚙️  Wasteland Manager"@,
        is_selection(r.lines@, strings_of(json_get(bindings@, "menu_items"@)), v.selected_index),
        r.empty_text is None,
        match v.status_message {
            Some(m) => r.panel matches StatusPanel::Message(t) && t@ == m@,
            None => r.panel is Hidden,
        },
        r.help@ == "↑/↓: Navigate • Enter: Select • 'r': Refresh • Esc: Back"@,
{
    let items = binding_strings(bindings, "menu_items");
    ListScreen {
        title: owned("⚙️  Wasteland Manager"),
        lines: selection_lines(&items, v.selected_index),
        empty_text: None,
        panel: message_panel(v),
        help: owned("↑/↓: Navigate • Enter: Select • 'r': Refresh • Esc: Back"),
    }
}

/// The devices discovered, to trust one: those of the bindings'
/// `device_list`, the selected one behind a check mark.
pub fn trust_devices_screen(v: &ManagerView, bindings: &JsonValue) -> (r: ListScreen)
    ensures
        ({
            let devices = strings_of(json_get(bindings@, "device_list"@));
            &&& r.title@ == counted("📡 Discovered BLE Devices"@, devices.len() as usize)
            &&& devices.len() == 0 ==> r.lines@.len() == 0
            &&& devices.len() == 0 ==> (r.empty_text matches Some(t) && t@
                == crate::manager::no_devices_text())
            &&& devices.len() > 0 ==> r.empty_text is None
            &&& devices.len() > 0 ==> is_marked_list(r.lines@, devices, v.selected_index, "✓ "@)
        }),
        r.panel is Hidden,
        r.help@ == "↑/↓: Select • Enter: Trust Device • 'r': Refresh • Esc: Back"@,
{
    let devices = binding_strings(bindings, "device_list");
    let (lines, empty_text) = if devices.len() == 0 {
        (
            Vec::new(),
            Some(
                owned(
                    "No devices discovered yet.\n\nDevices will appear here when they're in range.\n\nPress 'r' to refresh scanning.",
                ),
            ),
        )
    } else {
        (marked_lines(&devices, v.selected_index, "✓ "), None)
    };
    ListScreen {
        title: counted_text("📡 Discovered BLE Devices", devices.len()),
        lines,
        empty_text,
        panel: StatusPanel::Hidden,
        help: owned("↑/↓: Select • Enter: Trust Device • 'r': Refresh • Esc: Back"),
    }
}

/// The installed modules, to archive one.
pub fn manage_modules_screen(v: &ManagerView) -> (r: ListScreen)
    ensures
        r.title@ == counted("⚙️  Installed Modules"@, v.installed_modules@.len() as usize),
        is_selection(r.lines@, views_of(v.installed_modules@), v.selected_index),
        r.empty_text is None,
        r.panel is Hidden,
        r.help@ == "↑/↓: Navigate • 'a': Archive Module • Esc: Back"@,
{
    ListScreen {
        title: counted_text("⚙️  Installed Modules", v.installed_modules.len()),
        lines: selection_lines(&v.installed_modules, v.selected_index),
        empty_text: None,
        panel: StatusPanel::Hidden,
        help: owned("↑/↓: Navigate • 'a': Archive Module • Esc: Back"),
    }
}

} // verus!
