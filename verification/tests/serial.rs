use survon::bus::BusMessage;
use survon::json::parse_json;
use survon::serial::{MessageType, SourceInfo, SspError, SspMessage, Transport};

#[test]
fn test_ssp_roundtrip() {
    let ssp_msg = SspMessage {
        protocol: "ssp/1.0".to_string(),
        msg_type: MessageType::Telemetry,
        topic: "pressure_sensor".to_string(),
        timestamp: 1732377600,
        source: SourceInfo {
            id: "test_device".to_string(),
            transport: Transport::Usb,
            address: "/dev/ttyUSB0".to_string(),
        },
        payload: parse_json(r#"{"pressure_psi": 85.5}"#).unwrap(),
        qos: None,
        retain: None,
        reply_to: None,
        in_reply_to: None,
    };

    let bus_msg = ssp_msg.to_bus_message();
    assert_eq!(bus_msg.topic, "pressure_sensor");
    assert_eq!(bus_msg.source, "test_device");

    let ssp_back = SspMessage::from_bus_message(
        &bus_msg,
        ssp_msg.source.transport.clone(),
        ssp_msg.source.address.clone(),
    );
    assert_eq!(ssp_back.topic, "pressure_sensor");
}

#[test]
fn to_bus_message_prints_the_payload_as_json() {
    let msg = SspMessage::parse_flexible(r#"{"p":"ssp/1.0","t":"tel","i":"dev","s":5,"d":{"a":1}}"#)
        .unwrap();
    let bus = msg.to_bus_message();
    assert_eq!(bus.payload, r#"{"a":1}"#);
}

#[test]
fn parse_flexible_reads_the_compact_form() {
    let msg = SspMessage::parse_flexible(
        r#"{"p":"ssp/1.0","t":"tel","i":"a_01","s":1732377600,"d":{"a":72,"b":45}}"#,
    )
    .unwrap();
    assert_eq!(msg.protocol, "ssp/1.0");
    assert_eq!(msg.msg_type, MessageType::Telemetry);
    assert_eq!(msg.topic, "a_01");
    assert_eq!(msg.source.id, "a_01");
    assert_eq!(msg.source.transport, Transport::Ble);
    assert_eq!(msg.source.address, "");
    assert_eq!(msg.timestamp, 1732377600);
    assert_eq!(msg.payload.get("b").and_then(|v| v.as_u64()), Some(45));
}

#[test]
fn parse_flexible_expands_compact_types() {
    let cmd = SspMessage::parse(r#"{"p":"x","t":"cmd","i":"d","s":0,"d":{}}"#).unwrap();
    assert_eq!(cmd.msg_type, MessageType::Command);
    let res = SspMessage::parse(r#"{"p":"x","t":"res","i":"d","s":0,"d":{}}"#).unwrap();
    assert_eq!(res.msg_type, MessageType::Response);
    let evt = SspMessage::parse(r#"{"p":"x","t":"evt","i":"d","s":0,"d":{}}"#).unwrap();
    assert_eq!(evt.msg_type, MessageType::Event);
    let other = SspMessage::parse(r#"{"p":"x","t":"weird","i":"d","s":0,"d":{}}"#).unwrap();
    assert_eq!(other.msg_type, MessageType::Telemetry);
}

#[test]
fn parse_flexible_errors() {
    assert_eq!(SspMessage::parse_flexible("not json").err(), Some(SspError::InvalidJson));
    assert_eq!(
        SspMessage::parse_flexible(r#"{"t":"tel","i":"d","s":0,"d":{}}"#).err(),
        Some(SspError::MissingProtocol)
    );
    assert_eq!(
        SspMessage::parse_flexible(r#"{"p":"x","i":"d","s":0,"d":{}}"#).err(),
        Some(SspError::MissingType)
    );
    assert_eq!(
        SspMessage::parse_flexible(r#"{"p":"x","t":"tel","s":0,"d":{}}"#).err(),
        Some(SspError::MissingDeviceId)
    );
    assert_eq!(
        SspMessage::parse_flexible(r#"{"p":"x","t":"tel","i":"d","s":-1,"d":{}}"#).err(),
        Some(SspError::MissingTimestamp)
    );
    assert_eq!(
        SspMessage::parse_flexible(r#"{"p":"x","t":"tel","i":"d","s":0,"d":3}"#).err(),
        Some(SspError::MissingData)
    );
    assert_eq!(SspError::MissingData.message(), "Missing 'd' (data)");
    assert_eq!(SspError::InvalidJson.message(), "Invalid JSON");
}

#[test]
fn from_bus_message_wraps_a_non_json_payload() {
    let bus = BusMessage::with_timestamp(
        "relay".to_string(),
        "on".to_string(),
        "hub".to_string(),
        42,
    );
    let ssp = SspMessage::from_bus_message(&bus, Transport::Ble, "AA:BB".to_string());
    assert_eq!(ssp.msg_type, MessageType::Command);
    assert_eq!(ssp.protocol, "ssp/1.0");
    assert_eq!(ssp.timestamp, 42);
    assert_eq!(ssp.source.address, "AA:BB");
    assert_eq!(ssp.payload.get("raw").and_then(|v| v.as_str()), Some("on"));
}

#[test]
fn message_type_and_transport_names() {
    assert_eq!(MessageType::from_str("COMMAND"), MessageType::Command);
    assert_eq!(MessageType::from_str("response"), MessageType::Response);
    assert_eq!(MessageType::from_str("nonsense"), MessageType::Telemetry);
    assert_eq!(Transport::from_str("ble"), Transport::Ble);
    assert_eq!(Transport::from_str("USB"), Transport::Usb);
}
