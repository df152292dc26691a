use survon::cards::{activity_view, chart_history, chart_labels, gauge_labels, toggle_view, ToggleConfig};
use survon::chat::{chat_lines, chat_view, ChatLine};
use survon::config_editor::config_editor_screen;
use survon::json::parse_json;
use survon::manager::{
    all_devices_screen, archived_modules_screen, install_registry_screen, main_menu_screen,
    manager_screen, manager_view, overseer_overview_text, pending_trust_screen, ManagerScreen,
};
use survon::panels::{StatusPanel, UiColor};
use survon::side_quest::{
    create_quest_screen, quest_detail_screen, quest_list_screen, quest_overview_text, quest_screen,
    side_quest_view, FormBody, QuestScreen,
};
use survon::templates::{get_template, TemplateKind};
use survon::wasteland::{
    manage_modules_screen, trust_devices_screen, wasteland_main_menu, wasteland_screen, WastelandScreen,
};

#[test]
fn side_quest_view_reads_bindings_with_defaults() {
    let b = parse_json(r#"{"quests": ["Climb", 3, "Cook"], "selected_index": 1, "status_message": ""}"#).unwrap();
    let v = side_quest_view(false, &b);
    assert_eq!(v.current_view, "QuestList");
    assert_eq!(v.border_color, UiColor::Magenta);
    assert_eq!(v.quests, vec!["Climb".to_string(), "Cook".to_string()]);
    assert_eq!(v.quest_count, 2);
    assert!(v.status_message.is_none());
    assert!(!v.has_status);
    assert_eq!(v.form_description, "(none)");
    assert_eq!(v.selected_quest_trigger, "No deadline");
    assert_eq!(side_quest_view(true, &b).border_color, UiColor::White);
}

#[test]
fn quest_list_marks_the_selected_quest() {
    let b = parse_json(r#"{"quests": ["Climb", "Cook"], "selected_index": 1, "status_message": "Saved"}"#).unwrap();
    let v = side_quest_view(false, &b);
    let s = quest_list_screen(&v);
    assert_eq!(s.title, "🗺️  Side Quests (2)");
    assert_eq!(s.lines[0].text, "  Climb");
    assert_eq!(s.lines[1].text, "▶ Cook");
    assert!(s.lines[1].selected);
    assert_eq!(s.status.as_deref(), Some("Saved"));
    assert!(s.empty_text.is_none());
    let empty = quest_list_screen(&side_quest_view(false, &parse_json("{}").unwrap()));
    assert!(empty.lines.is_empty());
    assert!(empty.empty_text.unwrap().starts_with("No side quests yet!"));
}

#[test]
fn quest_form_steps() {
    let b = parse_json(r#"{"current_view": "CreateQuest", "create_step": "Urgency", "urgency_options": ["Chill", "Odd"], "selected_index": 0}"#).unwrap();
    let v = side_quest_view(false, &b);
    assert_eq!(quest_screen(&v.current_view), QuestScreen::CreateQuest);
    let s = create_quest_screen(&v);
    assert_eq!(s.title, "🆕 New Side Quest - Urgency");
    assert_eq!(s.help, "[Esc] Cancel");
    match s.body {
        FormBody::Choices { title, lines, highlight } => {
            assert_eq!(title, " Select Urgency ");
            assert_eq!(highlight, UiColor::Yellow);
            assert_eq!(lines[0].text, "▶ ☁️ Chill");
            assert_eq!(lines[1].text, "  • Odd");
        }
        _ => panic!("the urgency step is a list"),
    }
    let t = side_quest_view(false, &parse_json(r#"{"create_step": "Title", "form_title": "Hike"}"#).unwrap());
    let s = create_quest_screen(&t);
    assert_eq!(s.help, "[Enter] Next  [Esc] Cancel");
    match s.body {
        FormBody::Text(x) => assert_eq!(x, "\nQuest Title:\n\nHike_"),
        _ => panic!("the title step is a text"),
    }
    let c = side_quest_view(false, &parse_json(r#"{"create_step": "Confirm", "form_title": "Hike", "form_topic": "Out", "form_urgency": "Chill"}"#).unwrap());
    let s = create_quest_screen(&c);
    assert_eq!(s.body_border, UiColor::Green);
    match s.body {
        FormBody::Text(x) => assert_eq!(
            x,
            "\nReview your quest:\n\nTitle: Hike\nDescription: (none)\nTopic: Out\nUrgency: Chill\n\nCreate this quest? ([y]/[n])"
        ),
        _ => panic!("the confirm step is a text"),
    }
    let u = side_quest_view(false, &parse_json(r#"{"create_step": "Other"}"#).unwrap());
    assert!(matches!(create_quest_screen(&u).body, FormBody::Nothing));
}

#[test]
fn quest_detail_and_overview() {
    let v = side_quest_view(false, &parse_json(r#"{"selected_quest_title": "Hike", "selected_quest_topic": "Out"}"#).unwrap());
    let d = quest_detail_screen(&v);
    assert_eq!(d.title, "📋 Hike");
    assert_eq!(d.details, "\nTopic: Out\nUrgency: \nDeadline: No deadline\n\nDescription:\nNo description");
    assert_eq!(quest_overview_text(1), "Manage Schedule Events & Tasks\n---\n[1 Open Item]");
    assert_eq!(quest_overview_text(3), "Manage Schedule Events & Tasks\n---\n[3 Open Items]");
    assert_eq!(quest_screen("Nope"), QuestScreen::QuestList);
}

#[test]
fn manager_screens() {
    let b = parse_json(r#"{"pending_devices": ["Unit A"], "known_devices": ["✓ A", "✗ B", "C"], "module_list": ["m1"],
        "installed_modules": ["x", "y"], "archived_modules": ["old"], "selected_index": 1, "is_scanning": true,
        "scan_countdown": 300, "status_message": "Scanning"}"#).unwrap();
    let v = manager_view(false, &b);
    assert_eq!(v.current_view, "Main");
    assert_eq!(v.scan_countdown, 44);
    assert_eq!(v.installed_count, 2);
    assert_eq!(manager_screen(&v.current_view), ManagerScreen::Main);
    assert_eq!(manager_screen("EditConfig"), ManagerScreen::EditConfig);
    let m = main_menu_screen(&v);
    assert_eq!(m.lines.len(), 6);
    assert_eq!(m.lines[0].text, "  ⚠️  Trust Pending Devices (1)");
    assert_eq!(m.lines[1].text, "▶ 📡 Manage All Devices (3)");
    assert_eq!(m.lines[5].text, "  ← Back");
    assert!(matches!(m.panel, StatusPanel::Scanning(44)));
    let p = pending_trust_screen(&v);
    assert_eq!(p.title, "⚠️  New Devices Discovered (1)");
    let d = all_devices_screen(&v);
    assert_eq!(d.lines[0].color, UiColor::Green);
    assert_eq!(d.lines[1].color, UiColor::Gray);
    assert_eq!(d.lines[2].color, UiColor::Gray);
    let r = install_registry_screen(&v);
    assert_eq!(r.title, "📦 Registry Modules (1)");
    let a = archived_modules_screen(&v, &b);
    assert_eq!(a.lines[0].text, "  old");
    assert_eq!(overseer_overview_text(&v), "Configure Manifests & Peripherals\n---\n[2 Modules]\n[3 Devices]");
    let quiet = manager_view(true, &parse_json(r#"{"known_devices": ["✗ B"]}"#).unwrap());
    assert_eq!(quiet.border_color, UiColor::White);
    assert_eq!(all_devices_screen(&quiet).lines[0].color, UiColor::Gray);
    let d2 = all_devices_screen(&manager_view(false, &parse_json(r#"{"known_devices": ["x", "✗ B"]}"#).unwrap()));
    assert_eq!(d2.lines[1].color, UiColor::Red);
    assert!(matches!(pending_trust_screen(&quiet).panel, StatusPanel::Hidden));
}

#[test]
fn config_editor_rows() {
    let b = parse_json(r#"{"editor_module_name": "gate", "editor_selected_field": 1, "editor_is_editing": true,
        "editor_edit_buffer": "héllo", "editor_cursor_pos": 3,
        "editor_fields": [{"label": "Name", "display_value": "x"}, {"label": "Flag", "value_type": "bool", "bool_value": true},
                          {"label": "Mode", "value_type": "enum", "display_value": "auto"}]}"#).unwrap();
    let s = config_editor_screen(&b, 100, 10);
    assert_eq!(s.title, " Edit: gate ");
    assert_eq!(s.rows.len(), 3);
    assert_eq!(s.rows[0].label, "Name                ");
    assert_eq!(s.rows[0].value, "x");
    assert!(s.rows[1].editing);
    assert_eq!(s.rows[1].value, "hé│llo");
    assert_eq!(s.rows[2].value, "< auto >");
    assert!(s.side_help);
    assert_eq!(s.help[0], "Editing mode:");
    let narrow = config_editor_screen(&b, 60, 2);
    assert_eq!(narrow.rows.len(), 2);
    assert_eq!(narrow.help, vec!["[Ent] Save  [Esc] Cancel".to_string()]);
    let idle = parse_json(r#"{"editor_fields": [{"label": "Flag", "value_type": "bool"}]}"#).unwrap();
    let s = config_editor_screen(&idle, 60, 5);
    assert_eq!(s.title, " Edit: Unknown ");
    assert_eq!(s.rows[0].value, "[ ] false");
    assert_eq!(s.help[0], "[↑]/[↓] Select  [Ent] Edit  [←]/[→] Toggle  [s] Save  [Esc] Close");
}

#[test]
fn chat_lines_number_the_source_links() {
    let msgs = vec![
        "user:How do I fix a fence?".to_string(),
        "assistant:Use wire.\nTie it tight.\nSources (from ./docs/fence.pdf)\n(from a(from b)".to_string(),
        "no colon here".to_string(),
        "assistant:See (from guide.pdf))".to_string(),
    ];
    let lines = chat_lines(&msgs, Some(1));
    assert!(matches!(&lines[0], ChatLine::Head { user: true, text } if text == "How do I fix a fence?"));
    assert!(matches!(&lines[1], ChatLine::Blank));
    assert!(matches!(&lines[2], ChatLine::Head { user: false, text } if text == "Use wire."));
    assert!(matches!(&lines[3], ChatLine::Body(t) if t == "Tie it tight."));
    match &lines[4] {
        ChatLine::Link { before, file, selected } => {
            assert_eq!(before, "Sources ");
            assert_eq!(file, " fence.pdf");
            assert!(!selected);
        }
        _ => panic!("a source line is a link"),
    }
    assert!(matches!(&lines[5], ChatLine::Blank));
    assert!(matches!(&lines[6], ChatLine::Head { user: false, text } if text == "See (from guide.pdf))"));
    assert_eq!(lines.len(), 8);
    let v = chat_view(&parse_json(r#"{"chat_history": ["user:hi"], "current_link_index": 2, "scroll_offset": 65537}"#).unwrap());
    assert_eq!(v.current_link_index, Some(2));
    assert_eq!(v.scroll_offset, 1);
    assert_eq!(v.model_info, "No model loaded");
}

#[test]
fn activity_and_toggle_cards() {
    let b = parse_json(r#"{"activity_log": ["one", "ERROR two", "WARN three", "INFO four"], "status": "warning"}"#).unwrap();
    let a = activity_view("Feed", false, 5, &b);
    assert_eq!(a.items.len(), 3);
    assert_eq!(a.items[0].text, "ERROR two");
    assert_eq!(a.items[0].color, UiColor::Red);
    assert_eq!(a.items[1].color, UiColor::Yellow);
    assert_eq!(a.items[2].color, UiColor::Cyan);
    assert_eq!(a.border_color, UiColor::Yellow);
    assert_eq!(a.title, " Feed [WARNING] ");
    assert_eq!(activity_view("Feed", false, 1, &b).items.len(), 0);
    let t = toggle_view("Pump", false, &parse_json(r#"{"state": true, "toggle_on_label": "RUNNING"}"#).unwrap());
    assert_eq!(t.status_text, "RUNNING");
    assert_eq!(t.switch_visual, "[ ────── ● ]");
    assert_eq!(t.border_color, UiColor::Green);
    let off = toggle_view("Pump", true, &parse_json("{}").unwrap());
    assert_eq!(off.status_text, "OFF");
    assert_eq!(off.border_color, UiColor::White);
    let c = ToggleConfig::from_bindings(&parse_json("{}").unwrap());
    assert_eq!((c.on_label.as_str(), c.off_label.as_str(), c.label.as_str(), c.state), ("ON", "OFF", "Toggle", false));
}

#[test]
fn templates_by_name() {
    assert_eq!(get_template("side_quest_card"), Some(TemplateKind::SideQuestCard));
    assert_eq!(get_template("gauge_card"), Some(TemplateKind::GaugeCard));
    assert_eq!(get_template("nope"), None);
}

#[test]
fn wasteland_screen_names_and_main_menu() {
    assert_eq!(wasteland_screen("TrustDevices"), WastelandScreen::TrustDevices);
    assert_eq!(wasteland_screen("ArchivedModules"), WastelandScreen::ArchivedModules);
    assert_eq!(wasteland_screen("Elsewhere"), WastelandScreen::Main);
    let b = parse_json(r#"{"menu_items": ["Trust", "Install"], "selected_index": 1, "status_message": "Done"}"#).unwrap();
    let v = manager_view(false, &b);
    let menu = wasteland_main_menu(&v, &b);
    assert_eq!(menu.title, "⚙️  Wasteland Manager");
    assert_eq!(menu.lines.len(), 2);
    assert_eq!(menu.lines[0].text, "  Trust");
    assert_eq!(menu.lines[1].text, "▶ Install");
    assert!(matches!(menu.panel, StatusPanel::Message(ref m) if m == "Done"));
}

#[test]
fn wasteland_trust_devices_marks_the_selected_device() {
    let b = parse_json(r#"{"device_list": ["gate", "well"], "selected_index": 0}"#).unwrap();
    let v = manager_view(false, &b);
    let s = trust_devices_screen(&v, &b);
    assert_eq!(s.title, "📡 Discovered BLE Devices (2)");
    assert_eq!(s.lines[0].text, "✓ gate");
    assert_eq!(s.lines[1].text, "  well");
    assert!(s.empty_text.is_none());
    let none = parse_json(r#"{}"#).unwrap();
    let e = trust_devices_screen(&manager_view(false, &none), &none);
    assert_eq!(e.title, "📡 Discovered BLE Devices (0)");
    assert!(e.lines.is_empty());
    assert!(e.empty_text.unwrap().starts_with("No devices discovered yet."));
}

#[test]
fn wasteland_manage_modules_lists_installed_modules() {
    let b = parse_json(r#"{"installed_modules": ["gauge", "jukebox", "chat"], "selected_index": 2}"#).unwrap();
    let s = manage_modules_screen(&manager_view(false, &b));
    assert_eq!(s.title, "⚙️  Installed Modules (3)");
    assert_eq!(s.lines[2].text, "▶ chat");
    assert!(!s.lines[0].selected);
    assert_eq!(s.help, "↑/↓: Navigate • 'a': Archive Module • Esc: Back");
}

#[test]
fn gauge_labels_read_bindings_with_defaults() {
    let b = parse_json(r#"{"is_connected": true, "unit_of_measure_label": "PSI", "a": 40.5}"#).unwrap();
    let g = gauge_labels("Well Pressure", false, &b);
    assert_eq!(g.unit_label, "PSI");
    assert_eq!(g.display_name, "Well Pressure");
    assert_eq!(g.cmd_status, "⚪ Unknown");
    assert_eq!(g.device_mode, "unknown");
    assert!(g.is_connected);
    assert_eq!(g.connected_icon, "🔗");
    assert_eq!(g.border_color, UiColor::Cyan);
    let quiet = gauge_labels("X", true, &parse_json(r#"{"display_name": "Tank"}"#).unwrap());
    assert_eq!(quiet.display_name, "Tank");
    assert!(!quiet.is_connected);
    assert_eq!(quiet.connected_icon, "⛓️‍💥");
    assert_eq!(quiet.border_color, UiColor::White);
}

#[test]
fn chart_labels_default_to_a_connected_line_chart() {
    let b = parse_json(r#"{"c": -3}"#).unwrap();
    let c = chart_labels("Flow", false, &b);
    assert_eq!(c.chart_type, "line");
    assert_eq!(c.c, -3);
    assert!(c.is_connected);
    assert_eq!(c.unit, "units");
    assert_eq!(c.border_color, UiColor::Green);
    assert_eq!(c.title, "Flow");
    let off = chart_labels("Flow", true, &parse_json(r#"{"is_connected": false, "c": 1.5}"#).unwrap());
    assert_eq!(off.c, 0);
    assert_eq!(off.border_color, UiColor::Red);
}

#[test]
fn chart_history_keeps_complete_points() {
    let b = parse_json(
        r#"{"_chart_history": [{"a": 1.5, "b": 2, "c": 3}, {"a": 1, "b": 2}, "x", {"a": -1, "b": 0.25, "c": -7}]}"#,
    )
    .unwrap();
    let h = chart_history(&b);
    assert_eq!(h.len(), 2);
    assert_eq!(h[0].a.to_text(), "1.5");
    assert_eq!(h[0].b.to_text(), "2");
    assert_eq!(h[0].c, 3);
    assert_eq!(h[1].a.to_text(), "-1");
    assert_eq!(h[1].c, -7);
    assert!(chart_history(&parse_json(r#"{"_chart_history": 4}"#).unwrap()).is_empty());
}

#[test]
fn templates_name_their_required_bindings() {
    assert_eq!(get_template("gauge_card").unwrap().required_bindings(), vec!["a", "max_value"]);
    assert_eq!(get_template("chart_card").unwrap().required_bindings(), vec!["a", "chart_type"]);
    assert_eq!(get_template("toggle_switch").unwrap().required_bindings(), vec!["state"]);
    assert_eq!(
        get_template("side_quest_card").unwrap().required_bindings(),
        vec!["current_view", "quests", "selected_index"]
    );
    assert!(get_template("wasteland_manager_card").is_none());
}
