//! The Survon Serial Protocol (SSP): messages exchanged with field devices,
//! their compact wire form, and their conversion to and from bus messages.
use vstd::prelude::*;
use crate::bus::BusMessage;
use crate::json::{nested_within, plain_json, read_form, get_str, get_u64, json_get, json_insert, json_parse_result, json_text, parse_json, json_to_string, Json, JsonValue};
use crate::text::{ascii_lower, lowercase_ascii, owned, str_eq};

verus! {

/// The kind of an SSP message.
#[derive(Clone, Copy, Debug, PartialEq, Eq, Structural)]
pub enum MessageType {
    Telemetry,
    Command,
    Response,
    Event,
}

/// The link over which a device talks to the hub.
#[derive(Clone, Copy, Debug, PartialEq, Eq, Structural)]
pub enum Transport {
    Ble,
    Radio,
    Usb,
    Lora,
    Zigbee,
    Internal,
    Unknown,
}

/// The message type that a (possibly upper-case) name stands for;
/// unknown names are telemetry.
pub open spec fn message_type_named(s: Seq<char>) -> MessageType {
    let l = ascii_lower(s);
    if l == "telemetry"@ {
        MessageType::Telemetry
    } else if l == "command"@ {
        MessageType::Command
    } else if l == "response"@ {
        MessageType::Response
    } else if l == "event"@ {
        MessageType::Event
    } else {
        MessageType::Telemetry
    }
}

/// The transport that a (possibly upper-case) name stands for; names other
/// than usb, ble, lora and radio are unknown.
pub open spec fn transport_named(s: Seq<char>) -> Transport {
    let l = ascii_lower(s);
    if l == "usb"@ {
        Transport::Usb
    } else if l == "ble"@ {
        Transport::Ble
    } else if l == "lora"@ {
        Transport::Lora
    } else if l == "radio"@ {
        Transport::Radio
    } else {
        Transport::Unknown
    }
}

impl MessageType {
    /// The message type named by `s`, compared without regard to case.
    /// (Only ASCII letters change case here; none of the names holds a
    /// letter whose Unicode lower case differs from its ASCII one.)
    pub fn from_str(s: &str) -> (r: MessageType)
        ensures
            r == message_type_named(s@),
    {
        let l = lowercase_ascii(s);
        if str_eq(l.as_str(), "telemetry") {
            MessageType::Telemetry
        } else if str_eq(l.as_str(), "command") {
            MessageType::Command
        } else if str_eq(l.as_str(), "response") {
            MessageType::Response
        } else if str_eq(l.as_str(), "event") {
            MessageType::Event
        } else {
            MessageType::Telemetry
        }
    }
}

impl Transport {
    /// The transport named by `s`, compared without regard to case.
    pub fn from_str(s: &str) -> (r: Transport)
        ensures
            r == transport_named(s@),
    {
        let l = lowercase_ascii(s);
        if str_eq(l.as_str(), "usb") {
            Transport::Usb
        } else if str_eq(l.as_str(), "ble") {
            Transport::Ble
        } else if str_eq(l.as_str(), "lora") {
            Transport::Lora
        } else if str_eq(l.as_str(), "radio") {
            Transport::Radio
        } else {
            Transport::Unknown
        }
    }
}

/// Where a message came from.
pub struct SourceInfo {
    pub id: String,
    pub transport: Transport,
    pub address: String,
}

pub struct SourceInfoView {
    pub id: Seq<char>,
    pub transport: Transport,
    pub address: Seq<char>,
}

impl View for SourceInfo {
    type V = SourceInfoView;

    open spec fn view(&self) -> SourceInfoView {
        SourceInfoView { id: self.id@, transport: self.transport, address: self.address@ }
    }
}

impl Clone for SourceInfo {
    fn clone(&self) -> (r: Self)
        ensures
            r@ == self@,
    {
        SourceInfo {
            id: self.id.clone(),
            transport: self.transport,
            address: self.address.clone(),
        }
    }
}

/// An SSP message.
pub struct SspMessage {
    pub protocol: String,
    pub msg_type: MessageType,
    pub topic: String,
    pub timestamp: u64,
    pub source: SourceInfo,
    pub payload: JsonValue,
    pub qos: Option<u8>,
    pub retain: Option<bool>,
    pub reply_to: Option<String>,
    pub in_reply_to: Option<String>,
}

pub struct SspMessageView {
    pub protocol: Seq<char>,
    pub msg_type: MessageType,
    pub topic: Seq<char>,
    pub timestamp: u64,
    pub source: SourceInfoView,
    pub payload: Json,
    pub qos: Option<u8>,
    pub retain: Option<bool>,
    pub reply_to: Option<Seq<char>>,
    pub in_reply_to: Option<Seq<char>>,
}

pub open spec fn opt_view(s: Option<String>) -> Option<Seq<char>> {
    match s {
        Some(t) => Some(t@),
        None => None,
    }
}

impl View for SspMessage {
    type V = SspMessageView;

    open spec fn view(&self) -> SspMessageView {
        SspMessageView {
            protocol: self.protocol@,
            msg_type: self.msg_type,
            topic: self.topic@,
            timestamp: self.timestamp,
            source: self.source@,
            payload: self.payload@,
            qos: self.qos,
            retain: self.retain,
            reply_to: opt_view(self.reply_to),
            in_reply_to: opt_view(self.in_reply_to),
        }
    }
}

/// Why a line is not an SSP message.
#[derive(Clone, Copy, Debug, PartialEq, Eq, Structural)]
pub enum SspError {
    /// The line is not JSON.
    InvalidJson,
    /// No string member `p`.
    MissingProtocol,
    /// No string member `t`.
    MissingType,
    /// No string member `i`.
    MissingDeviceId,
    /// No non-negative integer member `s`.
    MissingTimestamp,
    /// No object member `d`.
    MissingData,
}

impl SspError {
    /// The text of the error.
    pub fn message(&self) -> (r: String)
        ensures
            r@ == match self {
                SspError::InvalidJson => "Invalid JSON"@,
                SspError::MissingProtocol => "Missing 'p' (protocol)"@,
                SspError::MissingType => "Missing 't' (type)"@,
                SspError::MissingDeviceId => "Missing 'i' (device id)"@,
                SspError::MissingTimestamp => "Missing 's' (timestamp)"@,
                SspError::MissingData => "Missing 'd' (data)"@,
            },
    {
        match self {
            SspError::InvalidJson => owned("Invalid JSON"),
            SspError::MissingProtocol => owned("Missing 'p' (protocol)"),
            SspError::MissingType => owned("Missing 't' (type)"),
            SspError::MissingDeviceId => owned("Missing 'i' (device id)"),
            SspError::MissingTimestamp => owned("Missing 's' (timestamp)"),
            SspError::MissingData => owned("Missing 'd' (data)"),
        }
    }
}

/// The long name of a compact message type: `tel`, `cmd`, `res` and `evt`
/// stand for telemetry, command, response and event; other names stay.
pub open spec fn expand_type(t: Seq<char>) -> Seq<char> {
    if t == "tel"@ {
        "telemetry"@
    } else if t == "cmd"@ {
        "command"@
    } else if t == "res"@ {
        "response"@
    } else if t == "evt"@ {
        "event"@
    } else {
        t
    }
}

/// The message that a compact SSP document stands for:
/// `{"p":protocol,"t":type,"i":device id,"s":timestamp,"d":{...}}`.
/// The device id is the topic and the source; the source is taken to speak
/// BLE, at no address; the data object is the payload as it stands.
pub open spec fn compact_message(v: Json) -> Result<SspMessageView, SspError> {
    if get_str(v, "p"@) is None {
        Err(SspError::MissingProtocol)
    } else if get_str(v, "t"@) is None {
        Err(SspError::MissingType)
    } else if get_str(v, "i"@) is None {
        Err(SspError::MissingDeviceId)
    } else if get_u64(v, "s"@) is None {
        Err(SspError::MissingTimestamp)
    } else if !(json_get(v, "d"@) matches Some(Json::Obj(_))) {
        Err(SspError::MissingData)
    } else {
        let id = get_str(v, "i"@).unwrap();
        Ok(
            SspMessageView {
                protocol: get_str(v, "p"@).unwrap(),
                msg_type: message_type_named(expand_type(get_str(v, "t"@).unwrap())),
                topic: id,
                timestamp: get_u64(v, "s"@).unwrap(),
                source: SourceInfoView { id, transport: Transport::Ble, address: Seq::empty() },
                payload: json_get(v, "d"@).unwrap(),
                qos: None,
                retain: None,
                reply_to: None,
                in_reply_to: None,
            },
        )
    }
}

/// The message that a line of text stands for.
pub open spec fn line_message(text: Seq<char>) -> Result<SspMessageView, SspError> {
    match json_parse_result(text) {
        None => Err(SspError::InvalidJson),
        Some(v) => compact_message(v),
    }
}

/// The payload of an SSP message made from a bus message: the bus payload
/// read as JSON, or `{"raw": payload}` where it is not JSON.
pub open spec fn payload_from_text(text: Seq<char>) -> Json {
    match json_parse_result(text) {
        Some(v) => v,
        None => Json::Obj(seq![("raw"@, Json::Str(text))]),
    }
}

/// The command message that carries a bus message to a device.
pub open spec fn ssp_from_bus(
    b: crate::bus::BusMessageView,
    transport: Transport,
    address: Seq<char>,
) -> SspMessageView {
    SspMessageView {
        protocol: "ssp/1.0"@,
        msg_type: MessageType::Command,
        topic: b.topic,
        timestamp: b.timestamp,
        source: SourceInfoView { id: b.source, transport, address },
        payload: payload_from_text(b.payload),
        qos: None,
        retain: None,
        reply_to: None,
        in_reply_to: None,
    }
}

/// The bus message that carries an SSP message, stamped at `timestamp`:
/// same topic, the payload printed as JSON, the source's id as source.
pub open spec fn bus_from_ssp(m: SspMessageView, timestamp: u64) -> crate::bus::BusMessageView {
    crate::bus::BusMessageView {
        topic: m.topic,
        payload: json_text(m.payload),
        source: m.source.id,
        timestamp,
    }
}

/// Carrying an SSP message over the bus and back to a device keeps its topic
/// and its source's id, takes the transport and address it is sent by, and
/// keeps the payload wherever reading back the printed payload gives it.
/// [`SspMessage::to_bus_message`] ensures that for a payload `serde_json`
/// holds as it is ([`crate::json::plain_json`]) nested at most 127 deep;
/// a message read by [`SspMessage::parse`] has such a payload wherever its
/// non-integer numbers are written in texts the reader reads exactly
/// ([`crate::json::lemma_read_form_plain`], as `85.5`).
pub proof fn lemma_ssp_bus_roundtrip(
    m: SspMessageView,
    stamp: u64,
    transport: Transport,
    address: Seq<char>,
)
    ensures
        ({
            let back = ssp_from_bus(bus_from_ssp(m, stamp), transport, address);
            &&& back.topic == m.topic
            &&& back.source == (SourceInfoView { id: m.source.id, transport, address })
            &&& back.timestamp == stamp
            &&& json_parse_result(json_text(m.payload)) == Some(m.payload) ==> back.payload
                == m.payload
        }),
{
}

/// The payload of a message read by [`SspMessage::parse`], where its
/// non-integer numbers are written in texts `serde_json` reads exactly,
/// is one that reads back from its printing.
pub proof fn lemma_parsed_payload_reads_back(p: Json)
    requires
        crate::json::read_form(p),
        nested_within(p, 126),
        crate::json::exact_floats(p),
    ensures
        plain_json(p),
        nested_within(p, 127),
{
    crate::json::lemma_read_form_plain(p);
    crate::json::lemma_nested_within_more(p, 126, 127);
}

fn expand_type_exec(t: &str) -> (r: String)
    ensures
        r@ == expand_type(t@),
{
    if str_eq(t, "tel") {
        owned("telemetry")
    } else if str_eq(t, "cmd") {
        owned("command")
    } else if str_eq(t, "res") {
        owned("response")
    } else if str_eq(t, "evt") {
        owned("event")
    } else {
        owned(t)
    }
}

impl SspMessage {
    /// Reads the compact form of a message from a parsed document.
    pub fn from_compact(v: &JsonValue) -> (r: Result<SspMessage, SspError>)
        ensures
            r matches Ok(m) ==> compact_message(v@) == Ok::<SspMessageView, SspError>(m@),
            r matches Err(e) ==> compact_message(v@) == Err::<SspMessageView, SspError>(e),
    {
        let protocol = match v.get("p") {
            Some(x) => match x.as_str() {
                Some(s) => s,
                None => return Err(SspError::MissingProtocol),
            },
            None => return Err(SspError::MissingProtocol),
        };
        let msg_type = match v.get("t") {
            Some(x) => match x.as_str() {
                Some(s) => s,
                None => return Err(SspError::MissingType),
            },
            None => return Err(SspError::MissingType),
        };
        let device_id = match v.get("i") {
            Some(x) => match x.as_str() {
                Some(s) => s,
                None => return Err(SspError::MissingDeviceId),
            },
            None => return Err(SspError::MissingDeviceId),
        };
        let timestamp = match v.get("s") {
            Some(x) => match x.as_u64() {
                Some(n) => n,
                None => return Err(SspError::MissingTimestamp),
            },
            None => return Err(SspError::MissingTimestamp),
        };
        let data = match v.get("d") {
            Some(x) => {
                if x.is_object() {
                    x
                } else {
                    return Err(SspError::MissingData);
                }
            },
            None => return Err(SspError::MissingData),
        };
        let expanded = expand_type_exec(msg_type);
        let m = SspMessage {
            protocol: owned(protocol),
            msg_type: MessageType::from_str(expanded.as_str()),
            topic: owned(device_id),
            timestamp,
            source: SourceInfo {
                id: owned(device_id),
                transport: Transport::Ble,
                address: String::new(),
            },
            payload: data.copy(),
            qos: None,
            retain: None,
            reply_to: None,
            in_reply_to: None,
        };
        assert(m@ == compact_message(v@).unwrap());
        Ok(m)
    }

    /// Parses a line in the compact SSP form:
    /// `{"p":"ssp/1.0","t":"tel","i":"device_id","s":timestamp,"d":{"a":val1,...}}`.
    pub fn parse_flexible(json_str: &str) -> (r: Result<SspMessage, SspError>)
        ensures
            r matches Ok(m) ==> line_message(json_str@) == Ok::<SspMessageView, SspError>(m@),
            r matches Err(e) ==> line_message(json_str@) == Err::<SspMessageView, SspError>(e),
            r matches Ok(m) ==> read_form(m.payload@) && nested_within(m.payload@, 126),
    {
        match parse_json(json_str) {
            Some(v) => {
                let r = SspMessage::from_compact(&v);
                proof {
                    if r is Ok {
                        crate::json::lemma_member_read_form(v@, "d"@, 127);
                    }
                }
                r
            },
            None => Err(SspError::InvalidJson),
        }
    }

    /// Parses a line; the same as [`SspMessage::parse_flexible`].
    pub fn parse(line: &str) -> (r: Result<SspMessage, SspError>)
        ensures
            r matches Ok(m) ==> line_message(line@) == Ok::<SspMessageView, SspError>(m@),
            r matches Err(e) ==> line_message(line@) == Err::<SspMessageView, SspError>(e),
            r matches Ok(m) ==> read_form(m.payload@) && nested_within(m.payload@, 126),
    {
        SspMessage::parse_flexible(line)
    }

    /// The bus message that carries this message: same topic, the payload
    /// printed as JSON, the source's id as source, stamped with the current
    /// time.
    pub fn to_bus_message(&self) -> (r: BusMessage)
        ensures
            r@ == bus_from_ssp(self@, r.timestamp),
            plain_json(self.payload@) && nested_within(self.payload@, 127) ==> json_parse_result(
                r.payload@,
            ) == Some(self.payload@),
    {
        BusMessage::new(self.topic.clone(), json_to_string(&self.payload), self.source.id.clone())
    }

    /// The command message that carries a bus message to a device over
    /// `transport` at `address`.
    pub fn from_bus_message(bus_msg: &BusMessage, transport: Transport, address: String) -> (r:
        SspMessage)
        ensures
            r@ == ssp_from_bus(bus_msg@, transport, address@),
    {
        let payload = match parse_json(bus_msg.payload.as_str()) {
            Some(v) => v,
            None => {
                let mut o = JsonValue::new_object();
                o.insert("raw", JsonValue::from_str(bus_msg.payload.as_str()));
                proof {
                    reveal_strlit("raw");
                    assert(json_insert(Seq::empty(), "raw"@, Json::Str(bus_msg.payload@))
                        =~= seq![("raw"@, Json::Str(bus_msg.payload@))]);
                }
                o
            },
        };
        SspMessage {
            protocol: owned("ssp/1.0"),
            msg_type: MessageType::Command,
            topic: bus_msg.topic.clone(),
            timestamp: bus_msg.timestamp,
            source: SourceInfo { id: bus_msg.source.clone(), transport, address },
            payload,
            qos: None,
            retain: None,
            reply_to: None,
            in_reply_to: None,
        }
    }
}

} // verus!
