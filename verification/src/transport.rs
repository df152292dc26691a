//! The transport manager: which devices are reached over which link, which
//! bus topics go out to devices, and what to do with a line read from a
//! serial port.
use vstd::prelude::*;
use vstd::hash_map::StringHashMap;
use crate::bus::BusMessage;
use crate::json::{get_str, json_parse_result, parse_json};
use crate::serial::{line_message, SourceInfo, SourceInfoView, SspError, SspMessage, Transport};
use crate::text::{owned, starts_with, starts_with_str, str_eq, trim, trim_str};

verus! {

/// The serial line speed.
pub const SERIAL_BAUD_RATE: u32 = 115200;

/// The device that an outbound payload is for: its `device_id`, else its
/// `target`, else `broadcast`.
pub open spec fn target_device(payload: Seq<char>) -> Seq<char> {
    match json_parse_result(payload) {
        Some(v) => match get_str(v, "device_id"@) {
            Some(d) => d,
            None => match get_str(v, "target"@) {
                Some(t) => t,
                None => "broadcast"@,
            },
        },
        None => "broadcast"@,
    }
}

/// How a message goes out over a transport.
#[derive(Clone, Copy, Debug, PartialEq, Eq, Structural)]
pub enum SendMethod {
    /// Written to the serial port at the device's address (USB, or BLE
    /// through a serial adapter).
    Serial,
    /// Radio and LoRa are not implemented yet.
    NotImplemented,
    /// No way to send over this transport.
    Unsupported,
}

pub open spec fn send_method_for(t: Transport) -> SendMethod {
    match t {
        Transport::Usb | Transport::Ble => SendMethod::Serial,
        Transport::Radio | Transport::Lora => SendMethod::NotImplemented,
        _ => SendMethod::Unsupported,
    }
}

/// A device heard over USB or BLE is written to by the serial port; Radio
/// and LoRa are not implemented yet; nothing sends over the other transports.
pub proof fn lemma_send_method_by_transport(t: Transport)
    ensures
        (send_method_for(t) == SendMethod::Serial) <==> (t == Transport::Usb || t
            == Transport::Ble),
        (send_method_for(t) == SendMethod::NotImplemented) <==> (t == Transport::Radio || t
            == Transport::Lora),
        send_method_for(Transport::Ble) == SendMethod::Serial,
{
}

pub fn send_method(t: Transport) -> (r: SendMethod)
    ensures
        r == send_method_for(t),
{
    match t {
        Transport::Usb | Transport::Ble => SendMethod::Serial,
        Transport::Radio | Transport::Lora => SendMethod::NotImplemented,
        _ => SendMethod::Unsupported,
    }
}

/// Where an outbound bus message goes.
pub enum Route {
    /// The target device is known: send it this message by this method.
    Send { target: String, message: SspMessage, method: SendMethod, address: String },
    /// The target device is not known.
    NoRoute { target: String },
}

/// What became of a line read from a serial port.
pub enum Inbound {
    /// Blank, or a reply of the serial adapter (`AT...`, `OK`, `ERROR...`).
    Skipped,
    /// Not an SSP message.
    Rejected(SspError),
    /// An SSP message; the bus message carries it on.
    Accepted { message: SspMessage, bus_message: BusMessage },
}

/// A trimmed line that is no message: empty, or a serial adapter's reply.
pub open spec fn is_adapter_noise(t: Seq<char>) -> bool {
    t.len() == 0 || starts_with(t, "AT"@) || t == "OK"@ || starts_with(t, "ERROR"@)
}

pub fn is_adapter_noise_exec(t: &str) -> (r: bool)
    ensures
        r == is_adapter_noise(t@),
{
    t.is_empty() || starts_with_str(t, "AT") || str_eq(t, "OK") || starts_with_str(t, "ERROR")
}

/// The serial ports that may have a device on Linux: `/dev/ttyUSB0` to
/// `/dev/ttyUSB3` and `/dev/ttyACM0` to `/dev/ttyACM3`, in that order.
pub fn usb_port_candidates() -> (r: Vec<String>)
    ensures
        r@.map_values(|s: String| s@) == seq![
            "/dev/ttyUSB0"@,
            "/dev/ttyUSB1"@,
            "/dev/ttyUSB2"@,
            "/dev/ttyUSB3"@,
            "/dev/ttyACM0"@,
            "/dev/ttyACM1"@,
            "/dev/ttyACM2"@,
            "/dev/ttyACM3"@,
        ],
{
    let r = vec![
        owned("/dev/ttyUSB0"),
        owned("/dev/ttyUSB1"),
        owned("/dev/ttyUSB2"),
        owned("/dev/ttyUSB3"),
        owned("/dev/ttyACM0"),
        owned("/dev/ttyACM1"),
        owned("/dev/ttyACM2"),
        owned("/dev/ttyACM3"),
    ];
    assert(r@.map_values(|s: String| s@) =~= seq![
        "/dev/ttyUSB0"@,
        "/dev/ttyUSB1"@,
        "/dev/ttyUSB2"@,
        "/dev/ttyUSB3"@,
        "/dev/ttyACM0"@,
        "/dev/ttyACM1"@,
        "/dev/ttyACM2"@,
        "/dev/ttyACM3"@,
    ]);
    r
}

/// A device file name of a USB serial adapter on macOS: only the call-out
/// devices `cu.usbserial*` and `cu.usbmodem*`.
pub fn is_macos_serial_name(name: &str) -> (r: bool)
    ensures
        r == (starts_with(name@, "cu.usbserial"@) || starts_with(name@, "cu.usbmodem"@)),
{
    starts_with_str(name, "cu.usbserial") || starts_with_str(name, "cu.usbmodem")
}

/// The routing table and the outbound topics.
pub struct TransportManager {
    routing_table: StringHashMap<SourceInfo>,
    outbound_topics: Vec<String>,
}

impl TransportManager {
    /// Where each known device is reached.
    pub closed spec fn routes(&self) -> Map<Seq<char>, SourceInfoView> {
        self.routing_table@.map_values(|s: SourceInfo| s@)
    }

    /// The topics forwarded to devices, in the order they were added.
    pub closed spec fn topics(&self) -> Seq<Seq<char>> {
        self.outbound_topics@.map_values(|s: String| s@)
    }

    /// A manager with no route, forwarding `com_input` (gate control),
    /// `control` and `arduino_ping`.
    pub fn new() -> (r: Self)
        ensures
            r.routes() == Map::<Seq<char>, SourceInfoView>::empty(),
            r.topics() == seq!["com_input"@, "control"@, "arduino_ping"@],
    {
        let r = TransportManager {
            routing_table: StringHashMap::new(),
            outbound_topics: vec![owned("com_input"), owned("control"), owned("arduino_ping")],
        };
        assert(r.routes() =~= Map::<Seq<char>, SourceInfoView>::empty());
        assert(r.topics() =~= seq!["com_input"@, "control"@, "arduino_ping"@]);
        r
    }

    /// Adds a topic to forward, unless it is forwarded already.
    pub fn add_outbound_topic(&mut self, topic: String)
        ensures
            final(self).routes() == old(self).routes(),
            old(self).topics().contains(topic@) ==> final(self).topics() == old(self).topics(),
            !old(self).topics().contains(topic@) ==> final(self).topics() == old(
                self,
            ).topics().push(topic@),
    {
        let mut i: usize = 0;
        while i < self.outbound_topics.len()
            invariant
                i <= self.outbound_topics@.len(),
                forall|j: int| 0 <= j < i ==> self.outbound_topics@[j]@ != topic@,
            decreases self.outbound_topics.len() - i,
        {
            if str_eq(self.outbound_topics[i].as_str(), topic.as_str()) {
                assert(self.topics()[i as int] == topic@);
                return;
            }
            i = i + 1;
        }
        let ghost t0 = self.topics();
        assert(!t0.contains(topic@)) by {
            if t0.contains(topic@) {
                let j = choose|j: int| 0 <= j < t0.len() && t0[j] == topic@;
                assert(self.outbound_topics@[j]@ == topic@);
            }
        }
        self.outbound_topics.push(topic);
        assert(self.topics() =~= t0.push(topic@));
    }

    /// The topics forwarded to devices.
    pub fn outbound_topics(&self) -> (r: Vec<String>)
        ensures
            r@.map_values(|s: String| s@) == self.topics(),
    {
        let mut r: Vec<String> = Vec::new();
        let mut i: usize = 0;
        while i < self.outbound_topics.len()
            invariant
                i <= self.outbound_topics@.len(),
                r@.map_values(|s: String| s@) == self.topics().take(i as int),
            decreases self.outbound_topics.len() - i,
        {
            let c = self.outbound_topics[i].clone();
            let ghost before = r@;
            r.push(c);
            proof {
                assert(r@.map_values(|s: String| s@) =~= before.map_values(|s: String| s@).push(
                    c@,
                ));
                assert(self.topics()[i as int] == c@);
            }
            i = i + 1;
            assert(r@.map_values(|s: String| s@) =~= self.topics().take(i as int));
        }
        assert(self.topics().take(i as int) =~= self.topics());
        r
    }

    /// The number of devices with a route.
    pub fn known_devices(&self) -> (r: usize)
        ensures
            r == self.routes().len(),
    {
        proof {
            assert(self.routes().dom() =~= self.routing_table@.dom());
        }
        self.routing_table.len()
    }

    /// Notes where a device is reached.
    pub fn record_route(&mut self, source: &SourceInfo)
        ensures
            final(self).routes() == old(self).routes().insert(source.id@, source@),
            final(self).topics() == old(self).topics(),
    {
        let ghost pre = self.routes();
        self.routing_table.insert(source.id.clone(), source.clone());
        assert(self.routes() =~= pre.insert(source.id@, source@));
    }

    /// Takes in a line read from a serial port: adapter noise is skipped; an
    /// SSP message records the route to its source and is handed on as a bus
    /// message.
    pub fn accept_inbound_line(&mut self, line: &str) -> (r: Inbound)
        ensures
            final(self).topics() == old(self).topics(),
            is_adapter_noise(trim(line@)) ==> r is Skipped && final(self).routes() == old(
                self,
            ).routes(),
            !is_adapter_noise(trim(line@)) ==> match line_message(trim(line@)) {
                Err(e) => r == Inbound::Rejected(e) && final(self).routes() == old(self).routes(),
                Ok(m) => {
                    &&& r matches Inbound::Accepted { message, bus_message }
                    &&& message@ == m
                    &&& bus_message.topic@ == m.topic
                    &&& bus_message.payload@ == crate::json::json_text(m.payload)
                    &&& bus_message.source@ == m.source.id
                    &&& final(self).routes() == old(self).routes().insert(m.source.id, m.source)
                },
            },
    {
        let trimmed = trim_str(line);
        if is_adapter_noise_exec(trimmed.as_str()) {
            return Inbound::Skipped;
        }
        match SspMessage::parse(trimmed.as_str()) {
            Ok(message) => {
                self.record_route(&message.source);
                let bus_message = message.to_bus_message();
                Inbound::Accepted { message, bus_message }
            },
            Err(e) => Inbound::Rejected(e),
        }
    }

    /// Where an outbound bus message goes: the target named in its payload,
    /// by the route known for it.
    pub fn route_outbound(&self, bus_msg: &BusMessage) -> (r: Route)
        ensures
            ({
                let target = target_device(bus_msg.payload@);
                if self.routes().contains_key(target) {
                    let src = self.routes()[target];
                    &&& r matches Route::Send { target: t, message, method, address }
                    &&& t@ == target
                    &&& message@ == crate::serial::ssp_from_bus(
                        bus_msg@,
                        src.transport,
                        src.address,
                    )
                    &&& method == send_method_for(src.transport)
                    &&& address@ == src.address
                } else {
                    r matches Route::NoRoute { target: t } && t@ == target
                }
            }),
    {
        let target = extract_target_device(bus_msg.payload.as_str());
        match self.routing_table.get(target.as_str()) {
            Some(src) => {
                let message = SspMessage::from_bus_message(bus_msg, src.transport, src.address.clone());
                Route::Send {
                    target,
                    message,
                    method: send_method(src.transport),
                    address: src.address.clone(),
                }
            },
            None => Route::NoRoute { target },
        }
    }
}

/// Once a device has been heard from, an outbound message whose payload names
/// it has a route: the transport and address it was heard on. Another device's
/// route stays as it was.
pub proof fn lemma_route_after_record(
    before: TransportManager,
    after: TransportManager,
    source: SourceInfoView,
    payload: Seq<char>,
)
    requires
        after.routes() == before.routes().insert(source.id, source),
    ensures
        target_device(payload) == source.id ==> after.routes().contains_key(target_device(payload))
            && after.routes()[target_device(payload)] == source,
        target_device(payload) != source.id ==> (after.routes().contains_key(
            target_device(payload),
        ) <==> before.routes().contains_key(target_device(payload))),
        target_device(payload) != source.id && before.routes().contains_key(target_device(payload))
            ==> after.routes()[target_device(payload)] == before.routes()[target_device(payload)],
{
}

/// The device an outbound payload is for.
pub fn extract_target_device(payload: &str) -> (r: String)
    ensures
        r@ == target_device(payload@),
{
    match parse_json(payload) {
        Some(v) => {
            match v.get("device_id") {
                Some(d) => match d.as_str() {
                    Some(s) => return owned(s),
                    None => {},
                },
                None => {},
            }
            match v.get("target") {
                Some(t) => match t.as_str() {
                    Some(s) => return owned(s),
                    None => {},
                },
                None => {},
            }
            owned("broadcast")
        },
        None => owned("broadcast"),
    }
}

} // verus!
