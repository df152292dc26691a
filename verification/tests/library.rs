use survon::bus::{
    app_event_message, gate_close, get_all_event_message_topics, llm_query, monitoring_update,
    BusMessage, SubscriptionTable,
};
use survon::digest::{md5_hex, to_hex_lower};
use survon::discovery::{
    device_discovered_event, extract_one_json_message, is_survon_device_name, scan_action,
    select_template, telemetry_capabilities, telemetry_device_id, NotificationBuffer, ScanAction,
};
use survon::json::{json_to_string, parse_json, JsonValue};
use survon::serial::{SspMessage, Transport};
use survon::text::{parse_u64, u64_to_string};
use survon::jukebox::{album_tracks, format_duration, JukeboxBrowser, JukeboxMode, TrackFile};
use survon::log::{debug_enabled, format_log_line, LogLevel};
use survon::messages::{MessagesIntent, MessagesState, MessagesStateMachine};
use survon::service::{ollama_tags_url, service_from_metadata, ServiceDiscovery, ServiceError, ServiceMetadata};
use survon::string_utils::StringUtils;
use survon::transport::{extract_target_device, Inbound, Route, TransportManager};

fn bus(topic: &str, payload: &str) -> BusMessage {
    BusMessage::with_timestamp(topic.to_string(), payload.to_string(), "test".to_string(), 7)
}

#[test]
fn pluralize_words() {
    assert_eq!(StringUtils::maybe_pluralize(("quest", "quests"), 1), "quest");
    assert_eq!(StringUtils::maybe_pluralize(("quest", "quests"), 0), "quests");
    assert_eq!(StringUtils::maybe_pluralize_count(3, ("device", "devices")), "3 devices");
    assert_eq!(StringUtils::maybe_pluralize_count(1, ("device", "devices")), "1 device");
}

#[test]
fn log_levels_and_lines() {
    assert_eq!(LogLevel::Error.as_str(), "ERROR");
    assert_eq!(LogLevel::Debug.filename(), "debug.log");
    assert_eq!(LogLevel::Warn.filename(), "warn.log");
    assert_eq!(
        format_log_line("2024-01-01 00:00:00", LogLevel::Info, "Test info"),
        "[2024-01-01 00:00:00] [INFO] Test info\n"
    );
    assert!(debug_enabled(Some("true")));
    assert!(!debug_enabled(Some("1")));
    assert!(!debug_enabled(None));
}

#[test]
fn bus_message_builders() {
    let g = gate_close("ui".to_string());
    assert_eq!((g.topic.as_str(), g.payload.as_str(), g.source.as_str()), ("com_input", "close_gate", "ui"));
    let m = monitoring_update("temp".to_string(), "21".to_string(), "s".to_string());
    assert_eq!(m.topic, "temp");
    assert_eq!(m.payload, "21");
    let q = llm_query("hello".to_string(), "me".to_string());
    assert_eq!(q.payload, "hello");
    let e = app_event_message("start", "{}");
    assert_eq!(e.topic, "app.event.start");
    let topics = get_all_event_message_topics();
    assert!(!topics.is_empty());
}

#[test]
fn subscriptions_deliver_to_their_topic() {
    let mut table = SubscriptionTable::new();
    let a = table.subscribe("temp");
    let b = table.subscribe("temp");
    let c = table.subscribe("gate");
    assert_ne!(a, b);
    assert_eq!(table.recipients("temp"), vec![a, b]);
    assert_eq!(table.recipients("gate"), vec![c]);
    assert!(table.recipients("none").is_empty());
}

#[test]
fn messages_window_scrolls_and_bounds_history() {
    let mut state = MessagesState::default();
    state.max_messages = 2;
    for i in 0..3 {
        let (s, events) = MessagesStateMachine::handle_add_message(state, bus("t", &i.to_string()));
        assert!(!events.is_empty());
        state = s;
    }
    assert_eq!(state.messages.len(), 2);
    assert_eq!(state.messages[0].payload, "1");
    assert_eq!(state.messages[1].payload, "2");
    let (s, _) = MessagesStateMachine::handle_scroll_down(state);
    assert_eq!(s.scroll_offset, 1);
    let (s, _) = MessagesStateMachine::handle_scroll_up(s);
    assert_eq!(s.scroll_offset, 0);
    let (s, _) = MessagesStateMachine::handle_scroll_up(s);
    assert_eq!(s.scroll_offset, 0);
    let (s, _) = MessagesStateMachine::transition(s, MessagesIntent::ScrollDown);
    let (s, _) = MessagesStateMachine::handle_scroll_to_bottom(s);
    assert_eq!(s.scroll_offset, 2);
    let (s, events) = MessagesStateMachine::handle_set_visible_lines(s, 10);
    assert_eq!(s.messages.len(), 2);
    assert!(events.is_empty());
}

#[test]
fn service_discovery_urls_and_contract() {
    let d = ServiceDiscovery::new("survon-*.local".to_string(), 8080);
    let hosts = d.candidate_hostnames();
    assert_eq!(hosts.len(), 11);
    assert_eq!(hosts[0], "survon-physician.local");
    assert_eq!(d.service_url("h.local"), "http://h.local:8080/.survon/service.json");
    assert_eq!(ollama_tags_url("http://x:11434"), "http://x:11434/api/tags");
    let meta = ServiceMetadata::parse(
        r#"{"service_type":"llm","council_position":"physician","position_display":"Doctor",
            "model_name":"m","api_contract":"survon-llm-service-v1","endpoints":{"ollama_api":"http://x"}}"#,
    )
    .unwrap();
    let s = service_from_metadata("h", meta, false).unwrap();
    assert_eq!(s.status, "out_of_office");
    assert_eq!(s.name, "Doctor");
    let bad = ServiceMetadata::parse(
        r#"{"service_type":"llm","council_position":"p","position_display":"d",
            "model_name":"m","api_contract":"other","endpoints":{"ollama_api":"e"}}"#,
    )
    .unwrap();
    assert_eq!(service_from_metadata("h", bad, true).err(), Some(ServiceError::InvalidApiContract));
}

#[test]
fn transport_routes_by_recorded_source() {
    let mut t = TransportManager::new();
    assert_eq!(t.outbound_topics(), vec!["com_input", "control", "arduino_ping"]);
    t.add_outbound_topic("control".to_string());
    t.add_outbound_topic("lights".to_string());
    assert_eq!(t.outbound_topics().len(), 4);
    match t.accept_inbound_line("  {\"p\":\"ssp/1.0\",\"t\":\"tel\",\"i\":\"a_01\",\"s\":1,\"d\":{\"a\":1}}\n") {
        Inbound::Accepted { message, bus_message } => {
            assert_eq!(message.topic, "a_01");
            assert_eq!(bus_message.source, "a_01");
        }
        _ => panic!("a telemetry line is accepted"),
    }
    assert_eq!(t.known_devices(), 1);
    match t.route_outbound(&bus("control", r#"{"device_id":"a_01","action":"on"}"#)) {
        Route::Send { target, .. } => assert_eq!(target, "a_01"),
        _ => panic!("a known device has a route"),
    }
    match t.route_outbound(&bus("control", r#"{"target":"zz"}"#)) {
        Route::NoRoute { target } => assert_eq!(target, "zz"),
        _ => panic!("an unknown device has no route"),
    }
    assert_eq!(extract_target_device("plain"), "broadcast");
    assert!(matches!(t.accept_inbound_line("garbage"), Inbound::Rejected(_)));
}

#[test]
fn json_messages_are_cut_from_a_buffer() {
    let r = extract_one_json_message("xx{\"a\":{\"b\":1}}tail").unwrap();
    assert_eq!(r.0, "{\"a\":{\"b\":1}}");
    assert_eq!(r.1, "tail");
    assert!(extract_one_json_message("no braces").is_err());
    assert!(extract_one_json_message("{\"open\":").is_err());
}

#[test]
fn notification_chunks_are_joined_into_lines() {
    let mut buf = NotificationBuffer::new(0);
    assert!(buf.push_chunk("{\"a\":", 100).is_empty());
    let lines = buf.push_chunk("1}\n{\"b\"", 200);
    assert_eq!(lines, vec!["{\"a\":1}".to_string()]);
    assert_eq!(buf.pending_len(), 4);
    let after_gap = buf.push_chunk(":2}\n", 10_000);
    assert!(after_gap.is_empty());
    let joined = buf.push_chunk("{\"c\":3}\n", 10_100);
    assert_eq!(joined, vec!["{\"c\":3}".to_string()]);
    buf.clear();
    assert_eq!(buf.pending_len(), 0);
}

#[test]
fn device_registration_helpers() {
    assert!(is_survon_device_name("Survon Field Unit 3"));
    assert!(is_survon_device_name("My Field Unit"));
    assert!(!is_survon_device_name("Headphones"));
    assert_eq!(telemetry_device_id(r#"{"i":"a_01","d":{}}"#), Some("a_01".to_string()));
    assert_eq!(telemetry_device_id("nope"), None);
    let caps = telemetry_capabilities("a_01");
    assert_eq!(caps.sensors.len(), 3);
    assert_eq!(select_template(&caps), "status_badge_card");
}

#[test]
fn durations_and_browser() {
    assert_eq!(format_duration(Some(125)), "2:05");
    assert_eq!(format_duration(Some(60)), "1:00");
    assert_eq!(format_duration(None), "?:??");
    let mut b = JukeboxBrowser::new();
    assert_eq!(b.mode, JukeboxMode::Playing);
    b.toggle_mode();
    assert_eq!(b.mode, JukeboxMode::AlbumList);
}

#[test]
fn md5_of_known_inputs() {
    assert_eq!(md5_hex(b""), "d41d8cd98f00b204e9800998ecf8427e");
    assert_eq!(md5_hex(b"abc"), "900150983cd24fb0d6963f7d28e17f72");
    assert_eq!(to_hex_lower(&[0x0a, 0x14, 0x1e, 0xff]), "0a141eff");
}

#[test]
fn json_values_round_trip() {
    let v = parse_json(r#"{"a": "x", "n": 5}"#).unwrap();
    assert_eq!(v.get("a").and_then(|x| x.as_str()), Some("x"));
    assert_eq!(v.get("n").and_then(|x| x.as_u64()), Some(5));
    let mut o = JsonValue::new_object();
    o.insert("k", JsonValue::from_u64(3));
    assert_eq!(survon::json::json_to_string(&o), r#"{"k":3}"#);
}

#[test]
fn json_read_after_write() {
    let mut o = parse_json(r#"{"k": 1, "m": "y"}"#).unwrap();
    o.insert("k", JsonValue::from_str("new"));
    o.insert("z", JsonValue::from_u64(9));
    assert_eq!(o.get("k").and_then(|x| x.as_str()), Some("new"));
    assert_eq!(o.get("z").and_then(|x| x.as_u64()), Some(9));
    assert_eq!(o.get("m").and_then(|x| x.as_str()), Some("y"));
}

#[test]
fn decimal_numerals_parse_back() {
    for n in [0u64, 7, 10, 985, u64::MAX] {
        assert_eq!(parse_u64(&u64_to_string(n)), Some(n));
    }
    assert_eq!(u64_to_string(1732377600), "1732377600");
    assert_eq!(parse_u64("+12"), Some(12));
    assert_eq!(parse_u64("18446744073709551616"), None);
    assert_eq!(parse_u64(""), None);
}

#[test]
fn ssp_round_trip_keeps_topic_source_and_payload() {
    let msg = SspMessage::parse_flexible(r#"{"p":"ssp/1.0","t":"tel","i":"gate","s":7,"d":{"a":1}}"#).unwrap();
    let bus = msg.to_bus_message();
    let back = SspMessage::from_bus_message(&bus, Transport::Usb, "/dev/ttyUSB1".to_string());
    assert_eq!(back.topic, "gate");
    assert_eq!(back.source.id, "gate");
    assert_eq!(back.source.address, "/dev/ttyUSB1");
    assert_eq!(json_to_string(&back.payload), r#"{"a":1}"#);
    assert_eq!(back.timestamp, bus.timestamp);
}

#[test]
fn scan_decides_by_trust_then_novelty() {
    assert_eq!(scan_action(true, true), ScanAction::Register);
    assert_eq!(scan_action(false, true), ScanAction::Register);
    assert_eq!(scan_action(true, false), ScanAction::AskTrust);
    assert_eq!(scan_action(false, false), ScanAction::Ignore);
}

#[test]
fn device_discovered_event_asks_for_trust() {
    let m = device_discovered_event("AA:BB", "Survon Gate", -61);
    assert_eq!(m.topic, "device_discovered");
    assert_eq!(m.source, "discovery_manager");
    let doc = parse_json(&m.payload).unwrap();
    assert_eq!(doc.get("mac_address").and_then(|v| v.as_str()), Some("AA:BB"));
    assert_eq!(doc.get("name").and_then(|v| v.as_str()), Some("Survon Gate"));
    assert_eq!(doc.get("rssi").and_then(|v| v.as_i64()), Some(-61));
    assert_eq!(doc.get("is_new").and_then(|v| v.as_bool()), Some(true));
    assert_eq!(doc.get("requires_trust_decision").and_then(|v| v.as_bool()), Some(true));
}

#[test]
fn equalizer_steps_are_clamped() {
    let mut eq = survon::jukebox::Equalizer::new();
    let steps = vec![1, -1, 0, 1, 1, 1, 1, 1, 1, 1, 1, 1, 1, 1, 1, 1];
    eq.update_with_steps(true, &steps);
    assert_eq!(eq.frame, 1);
    assert_eq!(eq.bars[0], 1);
    assert_eq!(eq.bars[1], 0);
    assert_eq!(eq.bars[2], 0);
    eq.update_with_steps(false, &steps);
    assert_eq!(eq.bars[0], 0);
    assert_eq!(eq.frame, 2);
}

#[test]
fn album_tracks_skip_missing_and_non_audio_files() {
    let b = parse_json(
        r#"{"tracklist": [{"title": "One", "file": "1.mp3"}, "x", {"file": "2.txt"}, {"file": "3.FLAC", "duration_seconds": 61}, {"file": "4.ogg"}]}"#,
    )
    .unwrap();
    let f = |p: &str, exists: bool, ext: Option<&str>| TrackFile {
        path: p.to_string(),
        exists,
        extension: ext.map(|e| e.to_string()),
    };
    let files = vec![
        f("a/1.mp3", true, Some("mp3")),
        f("a/", true, None),
        f("a/2.txt", true, Some("txt")),
        f("a/3.FLAC", true, Some("FLAC")),
        f("a/4.ogg", false, Some("ogg")),
    ];
    let tracks = album_tracks(&b, 7, &files);
    assert_eq!(tracks.len(), 2);
    assert_eq!(tracks[0].title, "One");
    assert_eq!(tracks[0].track_number, 1);
    assert_eq!(tracks[0].album_id, 7);
    assert_eq!(tracks[1].title, "Unknown Track");
    assert_eq!(tracks[1].track_number, 4);
    assert_eq!(tracks[1].duration_seconds, Some(61));
    assert_eq!(tracks[1].file_path, "a/3.FLAC");
}

#[test]
fn first_json_object_is_taken_out() {
    assert_eq!(
        extract_one_json_message("xx{\"a\":{\"b\":1}}tail").unwrap(),
        ("{\"a\":{\"b\":1}}".to_string(), "tail".to_string())
    );
    assert_eq!(extract_one_json_message("no brace").unwrap_err(), "No JSON start found");
    assert_eq!(extract_one_json_message("{{}").unwrap_err(), "No matching closing brace");
}

#[test]
fn ssp_round_trip_keeps_a_float_payload() {
    let msg = SspMessage::parse(r#"{"p":"ssp/1.0","t":"tel","i":"pressure_sensor","s":1732377600,"d":{"pressure_psi":85.5}}"#)
        .unwrap();
    let bus = msg.to_bus_message();
    assert_eq!(bus.payload, r#"{"pressure_psi":85.5}"#);
    let back = SspMessage::from_bus_message(&bus, Transport::Usb, "/dev/ttyUSB0".to_string());
    assert_eq!(json_to_string(&back.payload), json_to_string(&msg.payload));
    assert_eq!(back.payload.get("pressure_psi").unwrap().as_u64(), None);
    assert_eq!(back.topic, "pressure_sensor");
}

#[test]
fn extraction_cuts_by_characters_after_the_first_brace() {
    assert_eq!(
        extract_one_json_message("é{\"a\":1}").unwrap(),
        ("{\"a\":1}".to_string(), String::new())
    );
    assert_eq!(
        extract_one_json_message("{\"é\":1}xyz").unwrap(),
        ("{\"é\":1".to_string(), "}xyz".to_string())
    );
}
