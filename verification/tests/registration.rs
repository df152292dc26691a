use survon::discovery::telemetry_capabilities;
use survon::registration::{
    assemble_module_config, comment_lines, module_config_text, stream_message_step,
};
use survon::serial::SspError;

#[test]
fn first_message_registers_the_device() {
    let step = stream_message_step(
        r#"{"p":"ssp/1.0","t":"tel","i":"a_01","s":5,"d":{"a":1},"m":{"mode":"data","cmd_in":30}}"#,
        false,
    );
    let caps = step.registration.unwrap();
    assert_eq!(caps.device_id, "a_01");
    assert_eq!(caps.device_type, "field_unit");
    assert_eq!(caps.sensors.len(), 3);
    let ssp = step.telemetry.unwrap();
    assert_eq!(ssp.topic, "a_01");
    let meta = step.schedule_metadata.unwrap();
    assert_eq!(meta.get("cmd_in").and_then(|v| v.as_u64()), Some(30));
}

#[test]
fn registered_devices_are_not_registered_again() {
    let step = stream_message_step(r#"{"p":"ssp/1.0","t":"tel","i":"a_01","s":5,"d":{}}"#, true);
    assert!(step.registration.is_none());
    assert!(step.telemetry.is_ok());
    assert!(step.schedule_metadata.is_none());
}

#[test]
fn a_message_that_is_not_telemetry_is_reported() {
    let step = stream_message_step(r#"{"i":"dev"}"#, false);
    assert!(step.registration.is_some());
    assert_eq!(step.telemetry.err(), Some(SspError::MissingProtocol));
    assert!(step.schedule_metadata.is_none());
}

#[test]
fn comment_lines_prefix_each_line() {
    assert_eq!(comment_lines("a\nb"), "# a\n# b");
    assert_eq!(comment_lines("a\r\nb\n"), "# a\n# b");
    assert_eq!(comment_lines(""), "# ");
}

#[test]
fn module_config_for_a_field_unit() {
    let caps = telemetry_capabilities("a_01");
    let text = module_config_text(&caps).unwrap();
    assert!(text.starts_with(
        "# Auto-generated module for a_01\n# Device Type: field_unit\n# Firmware: unknown\n\n# Sample SSP Telemetry Payload:\n# {\n"
    ));
    assert!(text.contains("#   \"payload\": {\n#     \"a\": 0.0,"));
    assert!(text.contains("\"address\": \"XX:XX:XX:XX:XX:XX\""));
    assert!(text.ends_with(
        "name: a_01 (field_unit)\nmodule_type: monitoring\nbus_topic: a_01\ntemplate: status_badge_card\nbindings:\n  a: 0\n  b: 0\n  c: 0\n  device_id: a_01\n  firmware_version: unknown\n  is_blinkable: true\n"
    ));
}

#[test]
fn assembled_config_keeps_its_parts_in_order() {
    let caps = telemetry_capabilities("x");
    let text = assemble_module_config(&caps, "{}", "k: v\n");
    assert_eq!(
        text,
        "# Auto-generated module for x\n# Device Type: field_unit\n# Firmware: unknown\n\n# Sample SSP Telemetry Payload:\n# {}\n\nk: v\n"
    );
}
